use media_catalog::engine::{
    needs_thumbnail, Classification, Mutation, PathCheck, ReconcilePass,
};
use media_catalog::model::{CatalogEntry, FileStat, MediaKind, UpdateStats};

fn entry(id: i64, path: &str, hash: &str, size: u64, updated_at_ms: i64) -> CatalogEntry {
    CatalogEntry {
        id: Some(id),
        path: path.to_string(),
        file_name: path.rsplit('/').next().unwrap().to_string(),
        file_size_bytes: size,
        file_extension: "jpg".to_string(),
        media_kind: MediaKind::Image,
        video_length_ms: None,
        content_hash: hash.to_string(),
        created_at_ms: 0,
        updated_at_ms,
    }
}

fn stat(path: &str, size: u64, modified_at_ms: i64) -> FileStat {
    FileStat {
        path: path.to_string(),
        size_bytes: size,
        modified_at_ms,
    }
}

#[test]
fn unchanged_within_tolerance_no_writes() {
    // Catalog: /lib/a.jpg, hash h1, size 100, updated at 1000s.
    // Disk: same path, size 100, mtime 1000.3s: within the 1s window.
    let entries = vec![entry(1, "/lib/a.jpg", "h1", 100, 1_000_000)];
    let mut pass = ReconcilePass::start(&entries, 5_000_000);
    let check = pass.observe_file(&stat("/lib/a.jpg", 100, 1_000_300));
    assert_eq!(check, PathCheck::Unchanged);
    assert!(!needs_thumbnail(Classification::Unchanged));
    let orphans = pass.finish();
    assert!(orphans.is_empty());
}

#[test]
fn modified_updates_hash_size_timestamp() {
    // Same catalog; the file grew to 250 bytes with mtime 2000s.
    let entries = vec![entry(1, "/lib/a.jpg", "h1", 100, 1_000_000)];
    let mut pass = ReconcilePass::start(&entries, 5_000_000);
    let f = stat("/lib/a.jpg", 250, 2_000_000);
    let check = pass.observe_file(&f);
    assert_eq!(check, PathCheck::Modified);
    let m = pass.record_modified(&f, &"h2".to_string());
    match m {
        Mutation::UpdateMetadata {
            path,
            content_hash,
            file_size_bytes,
            updated_at_ms,
        } => {
            assert_eq!(path, "/lib/a.jpg");
            assert_eq!(content_hash, "h2");
            assert_eq!(file_size_bytes, 250);
            assert_eq!(updated_at_ms, 2_000_000);
        }
        _ => panic!("expected a metadata update"),
    }
    assert!(needs_thumbnail(Classification::Modified));
    assert!(pass.finish().is_empty());
}

#[test]
fn renamed_moves_entry_without_thumbnail() {
    // Same catalog; /lib/a.jpg is gone and /lib/renamed.jpg holds the same
    // content (hash h1), size 100, mtime 1000.2s.
    let entries = vec![entry(1, "/lib/a.jpg", "h1", 100, 1_000_000)];
    let mut pass = ReconcilePass::start(&entries, 5_000_000);
    let f = stat("/lib/renamed.jpg", 100, 1_000_200);
    let check = pass.observe_file(&f);
    assert_eq!(check, PathCheck::NotFound);
    let digest = "h1".to_string();
    let candidates = pass.hash_candidates(&digest);
    assert_eq!(candidates, vec!["/lib/a.jpg".to_string()]);
    let r = pass.resolve_unknown(&f, &digest, None, &vec![false]);
    assert_eq!(r.classification, Classification::Renamed);
    assert!(!needs_thumbnail(r.classification));
    assert_eq!(r.mutations.len(), 1);
    match &r.mutations[0] {
        Mutation::UpdatePath {
            old_path,
            new_path,
            new_file_name,
            updated_at_ms,
        } => {
            assert_eq!(old_path, "/lib/a.jpg");
            assert_eq!(new_path, "/lib/renamed.jpg");
            assert_eq!(new_file_name, "renamed.jpg");
            assert_eq!(*updated_at_ms, 1_000_200);
        }
        _ => panic!("expected a path update"),
    }
    // The old recorded path counts as seen: no orphan, no second entry.
    assert!(pass.finish().is_empty());
}

#[test]
fn renamed_and_modified_refreshes_metadata_too() {
    let entries = vec![entry(1, "/lib/a.jpg", "h1", 100, 1_000_000)];
    let mut pass = ReconcilePass::start(&entries, 5_000_000);
    // Same content identity, but the size diverged as well.
    let f = stat("/lib/renamed.jpg", 999, 9_000_000);
    assert_eq!(pass.observe_file(&f), PathCheck::NotFound);
    let digest = "h1".to_string();
    let r = pass.resolve_unknown(&f, &digest, None, &vec![false]);
    assert_eq!(r.classification, Classification::RenamedModified);
    assert!(needs_thumbnail(r.classification));
    assert_eq!(r.mutations.len(), 2);
    assert!(matches!(&r.mutations[0], Mutation::UpdatePath { .. }));
    match &r.mutations[1] {
        Mutation::UpdateMetadata {
            path,
            file_size_bytes,
            ..
        } => {
            assert_eq!(path, "/lib/renamed.jpg");
            assert_eq!(*file_size_bytes, 999);
        }
        _ => panic!("expected a metadata update after the move"),
    }
    assert!(pass.finish().is_empty());
}

#[test]
fn duplicate_content_inserts_second_entry() {
    // /lib/a.jpg still exists on disk; /lib/b.jpg appears with identical
    // content.  The pass must insert a second entry, not steal the first.
    let entries = vec![entry(1, "/lib/a.jpg", "h1", 100, 1_000_000)];
    let mut pass = ReconcilePass::start(&entries, 5_000_000);
    assert_eq!(
        pass.observe_file(&stat("/lib/a.jpg", 100, 1_000_000)),
        PathCheck::Unchanged
    );
    let f = stat("/lib/b.jpg", 100, 1_500_000);
    assert_eq!(pass.observe_file(&f), PathCheck::NotFound);
    let digest = "h1".to_string();
    let candidates = pass.hash_candidates(&digest);
    assert_eq!(candidates, vec!["/lib/a.jpg".to_string()]);
    let r = pass.resolve_unknown(&f, &digest, None, &vec![true]);
    assert_eq!(r.classification, Classification::NewDuplicate);
    assert!(needs_thumbnail(r.classification));
    assert_eq!(r.mutations.len(), 1);
    match &r.mutations[0] {
        Mutation::InsertEntry { entry } => {
            assert_eq!(entry.id, None);
            assert_eq!(entry.path, "/lib/b.jpg");
            assert_eq!(entry.content_hash, "h1");
            assert_eq!(entry.file_name, "b.jpg");
            assert_eq!(entry.media_kind, MediaKind::Image);
            assert_eq!(entry.created_at_ms, 5_000_000);
            assert_eq!(entry.updated_at_ms, 1_500_000);
        }
        _ => panic!("expected an insert"),
    }
    // Both entries now share the hash.
    assert_eq!(pass.hash_candidates(&digest).len(), 2);
    assert!(pass.finish().is_empty());
}

#[test]
fn fresh_content_classifies_new() {
    let entries = vec![entry(1, "/lib/a.jpg", "h1", 100, 1_000_000)];
    let mut pass = ReconcilePass::start(&entries, 7_000_000);
    let f = stat("/lib/clip.mp4", 4096, 3_000_000);
    assert_eq!(pass.observe_file(&f), PathCheck::NotFound);
    let digest = "h9".to_string();
    assert!(pass.hash_candidates(&digest).is_empty());
    let r = pass.resolve_unknown(&f, &digest, Some(90_000), &vec![]);
    assert_eq!(r.classification, Classification::New);
    match &r.mutations[0] {
        Mutation::InsertEntry { entry } => {
            assert_eq!(entry.media_kind, MediaKind::Video);
            assert_eq!(entry.video_length_ms, Some(90_000));
            assert_eq!(entry.file_extension, "mp4");
        }
        _ => panic!("expected an insert"),
    }
}

#[test]
fn probed_duration_dropped_for_non_video() {
    let entries: Vec<CatalogEntry> = Vec::new();
    let mut pass = ReconcilePass::start(&entries, 0);
    let f = stat("/lib/pic.png", 10, 0);
    assert_eq!(pass.observe_file(&f), PathCheck::NotFound);
    let r = pass.resolve_unknown(&f, &"h0".to_string(), Some(5_000), &vec![]);
    match &r.mutations[0] {
        Mutation::InsertEntry { entry } => {
            assert_eq!(entry.media_kind, MediaKind::Image);
            assert_eq!(entry.video_length_ms, None);
        }
        _ => panic!("expected an insert"),
    }
}

#[test]
fn orphan_swept_when_file_gone() {
    let entries = vec![
        entry(1, "/lib/a.jpg", "h1", 100, 1_000_000),
        entry(2, "/lib/gone.jpg", "h2", 50, 1_000_000),
    ];
    let mut pass = ReconcilePass::start(&entries, 5_000_000);
    assert_eq!(
        pass.observe_file(&stat("/lib/a.jpg", 100, 1_000_000)),
        PathCheck::Unchanged
    );
    let orphans = pass.finish();
    assert_eq!(orphans, vec!["/lib/gone.jpg".to_string()]);
}

#[test]
fn second_run_after_convergence_is_a_no_op() {
    // Two files on disk exactly as the catalog records them: every step is
    // Unchanged, nothing is hashed, nothing is swept.
    let entries = vec![
        entry(1, "/lib/a.jpg", "h1", 100, 1_000_000),
        entry(2, "/lib/b.jpg", "h2", 200, 2_000_000),
    ];
    let files = vec![
        stat("/lib/b.jpg", 200, 2_000_500),
        stat("/lib/a.jpg", 100, 999_500),
    ];
    let mut pass = ReconcilePass::start(&entries, 9_000_000);
    for f in &files {
        assert_eq!(pass.observe_file(f), PathCheck::Unchanged);
    }
    assert!(pass.finish().is_empty());
}

#[test]
fn tolerance_boundary_is_inclusive() {
    let entries = vec![entry(1, "/lib/a.jpg", "h1", 100, 1_000_000)];
    let mut pass = ReconcilePass::start(&entries, 0);
    // Exactly one second of drift stays unchanged...
    assert_eq!(
        pass.observe_file(&stat("/lib/a.jpg", 100, 1_001_000)),
        PathCheck::Unchanged
    );
    // ...one millisecond beyond does not.
    let entries2 = vec![entry(1, "/lib/a.jpg", "h1", 100, 1_000_000)];
    let mut pass2 = ReconcilePass::start(&entries2, 0);
    assert_eq!(
        pass2.observe_file(&stat("/lib/a.jpg", 100, 1_001_001)),
        PathCheck::Modified
    );
    // A size change alone is also a modification, whatever the clock says.
    let entries3 = vec![entry(1, "/lib/a.jpg", "h1", 100, 1_000_000)];
    let mut pass3 = ReconcilePass::start(&entries3, 0);
    assert_eq!(
        pass3.observe_file(&stat("/lib/a.jpg", 101, 1_000_000)),
        PathCheck::Modified
    );
}

#[test]
fn rename_tie_break_takes_first_missing() {
    // Two entries share the hash and both lost their files: the first in
    // index order is claimed.
    let entries = vec![
        entry(1, "/lib/a.jpg", "h1", 100, 1_000_000),
        entry(2, "/lib/b.jpg", "h1", 100, 1_000_000),
    ];
    let mut pass = ReconcilePass::start(&entries, 0);
    let f = stat("/lib/c.jpg", 100, 1_000_000);
    assert_eq!(pass.observe_file(&f), PathCheck::NotFound);
    let digest = "h1".to_string();
    assert_eq!(
        pass.hash_candidates(&digest),
        vec!["/lib/a.jpg".to_string(), "/lib/b.jpg".to_string()]
    );
    let r = pass.resolve_unknown(&f, &digest, None, &vec![false, false]);
    assert_eq!(r.classification, Classification::Renamed);
    match &r.mutations[0] {
        Mutation::UpdatePath { old_path, .. } => assert_eq!(old_path, "/lib/a.jpg"),
        _ => panic!("expected a path update"),
    }
    // The unclaimed duplicate is still orphaned at the sweep.
    assert_eq!(pass.finish(), vec!["/lib/b.jpg".to_string()]);
}

#[test]
fn stats_tally_outcomes() {
    let mut stats = UpdateStats::new();
    stats.record_scanned();
    stats.record_scanned();
    stats.record_outcome(Classification::Renamed, MediaKind::Image);
    stats.record_outcome(Classification::New, MediaKind::Video);
    stats.record_outcome(Classification::NewDuplicate, MediaKind::Image);
    stats.record_outcome(Classification::Unchanged, MediaKind::Image);
    stats.record_outcome(Classification::Orphaned, MediaKind::Unknown);
    assert_eq!(stats.scanned_count, 2);
    assert_eq!(stats.renamed_count, 1);
    assert_eq!(stats.processed_video_count, 1);
    assert_eq!(stats.processed_image_count, 1);
    assert_eq!(stats.deleted_count, 1);
}
