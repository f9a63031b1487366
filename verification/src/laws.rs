//! Pass-level laws of the reconciliation engine.
//!
//! The engine's step functions are proved against the model functions
//! (`after_observe`, `after_resolve`, `orphan_paths`, ...); the lemmas here
//! state what whole passes built from those steps guarantee: idempotence,
//! the tolerance window, rename and duplicate preservation, and the
//! completeness of the orphan sweep.

use vstd::prelude::*;
use crate::engine::{
    Classification, PathCheck, after_modify, after_observe, after_resolve, first_missing,
    lemma_first_missing_props, path_check_of,
};
use crate::index::{
    ItemModel, find_path, hash_matches, lemma_find_path_props, lemma_hash_matches_props,
    orphan_paths, paths_distinct,
};
use crate::model::{FileModel, entry_matches_file, within_tolerance};

verus! {

/// State after the path lookups of a whole walk, file by file.
pub open spec fn after_observe_all(s: Seq<ItemModel>, files: Seq<FileModel>) -> Seq<ItemModel>
    decreases files.len(),
{
    if files.len() == 0 {
        s
    } else {
        after_observe_all(after_observe(s, files[0]), files.drop_first())
    }
}

/// A path lookup moves nothing but one seen flag: length, entries and
/// inserted flags stay, and seen flags only grow.
pub proof fn lemma_after_observe_frame(s: Seq<ItemModel>, f: FileModel)
    ensures
        after_observe(s, f).len() == s.len(),
        forall|i: int| 0 <= i < s.len() ==> #[trigger] after_observe(s, f)[i].entry == s[i].entry,
        forall|i: int|
            0 <= i < s.len() ==> #[trigger] after_observe(s, f)[i].inserted == s[i].inserted,
        forall|i: int| 0 <= i < s.len() && s[i].seen ==> #[trigger] after_observe(s, f)[i].seen,
{
    lemma_find_path_props(s, f.path);
}

/// The frame of [`lemma_after_observe_frame`], extended over a whole walk.
pub proof fn lemma_observe_all_frame(s: Seq<ItemModel>, files: Seq<FileModel>)
    ensures
        after_observe_all(s, files).len() == s.len(),
        forall|i: int|
            0 <= i < s.len() ==> #[trigger] after_observe_all(s, files)[i].entry == s[i].entry,
        forall|i: int|
            0 <= i < s.len() ==> #[trigger] after_observe_all(s, files)[i].inserted
                == s[i].inserted,
        forall|i: int|
            0 <= i < s.len() && s[i].seen ==> #[trigger] after_observe_all(s, files)[i].seen,
    decreases files.len(),
{
    if files.len() == 0 {
    } else {
        lemma_after_observe_frame(s, files[0]);
        lemma_observe_all_frame(after_observe(s, files[0]), files.drop_first());
    }
}

/// Path lookup sees only entries, so two states with equal entries agree
/// on where a path lives.
pub proof fn lemma_find_path_entries_equal(s1: Seq<ItemModel>, s2: Seq<ItemModel>, p: Seq<char>)
    requires
        s1.len() == s2.len(),
        forall|i: int| 0 <= i < s1.len() ==> #[trigger] s1[i].entry == s2[i].entry,
    ensures
        find_path(s1, p) == find_path(s2, p),
    decreases s1.len(),
{
    if s1.len() == 0 {
    } else {
        assert(forall|i: int|
            0 <= i < s1.len() - 1 ==> #[trigger] s1.drop_first()[i].entry == s2.drop_first()[
                i
            ].entry);
        lemma_find_path_entries_equal(s1.drop_first(), s2.drop_first(), p);
    }
}

/// Classification of one file sees only entries, so two states with equal
/// entries classify it alike.
pub proof fn lemma_path_check_entries_equal(s1: Seq<ItemModel>, s2: Seq<ItemModel>, f: FileModel)
    requires
        s1.len() == s2.len(),
        forall|i: int| 0 <= i < s1.len() ==> #[trigger] s1[i].entry == s2[i].entry,
    ensures
        path_check_of(s1, f) == path_check_of(s2, f),
{
    lemma_find_path_entries_equal(s1, s2, f.path);
    lemma_find_path_props(s1, f.path);
}

/// With distinct paths, the lookup finds exactly the item that records the
/// path.
pub proof fn lemma_find_path_unique(s: Seq<ItemModel>, i: int)
    requires
        paths_distinct(s),
        0 <= i < s.len(),
    ensures
        find_path(s, s[i].entry.path) == Option::Some(i),
{
    lemma_find_path_props(s, s[i].entry.path);
    match find_path(s, s[i].entry.path) {
        Option::None => {
            assert(s[i].entry.path != s[i].entry.path);
        },
        Option::Some(j) => {
            if j < i {
                assert(s[j].entry.path != s[i].entry.path);
                assert(false);
            } else if j > i {
                assert(s[i].entry.path != s[j].entry.path);
                assert(false);
            }
        },
    }
}

/// A walk that reaches the file recording an entry's path leaves that
/// entry seen.
pub proof fn lemma_observe_all_marks_seen(
    s: Seq<ItemModel>,
    files: Seq<FileModel>,
    i: int,
    k: int,
)
    requires
        paths_distinct(s),
        0 <= i < s.len(),
        0 <= k < files.len(),
        files[k].path == s[i].entry.path,
    ensures
        after_observe_all(s, files)[i].seen,
    decreases files.len(),
{
    let s1 = after_observe(s, files[0]);
    lemma_after_observe_frame(s, files[0]);
    assert(paths_distinct(s1));
    if k == 0 {
        lemma_find_path_unique(s, i);
        assert(s1[i].seen);
        lemma_observe_all_frame(s1, files.drop_first());
    } else {
        assert(files.drop_first()[k - 1] == files[k]);
        assert(s1[i].entry.path == s[i].entry.path);
        lemma_observe_all_marks_seen(s1, files.drop_first(), i, k - 1);
    }
}

/// A state with every item seen has no orphans.
pub proof fn lemma_orphans_of_all_seen(s: Seq<ItemModel>)
    requires
        forall|i: int| 0 <= i < s.len() ==> s[i].seen,
    ensures
        orphan_paths(s).len() == 0,
    decreases s.len(),
{
    if s.len() == 0 {
    } else {
        lemma_orphans_of_all_seen(s.drop_last());
    }
}

/// Idempotence of a pass.  When the catalog already matches the disk —
/// every walked file finds its entry with equal size and a timestamp
/// within tolerance, and every entry's path is walked — then each step of
/// the walk classifies its file `Unchanged` (so no file is hashed and no
/// mutation is emitted), no entry changes, and the final orphan sweep is
/// empty.  A pass right after a completed pass meets these premises, so a
/// second run performs zero inserts, updates, or deletes.
pub proof fn lemma_pass_idempotent(s: Seq<ItemModel>, files: Seq<FileModel>)
    requires
        paths_distinct(s),
        forall|k: int|
            0 <= k < files.len() ==> #[trigger] path_check_of(s, files[k]) == PathCheck::Unchanged,
        forall|i: int| #![trigger s[i].entry]
            0 <= i < s.len() ==> exists|k: int|
                0 <= k < files.len() && #[trigger] files[k].path == s[i].entry.path,
    ensures
        forall|k: int|
            0 <= k < files.len() ==> #[trigger] path_check_of(
                after_observe_all(s, files.take(k)),
                files[k],
            ) == PathCheck::Unchanged,
        after_observe_all(s, files).len() == s.len(),
        forall|i: int|
            0 <= i < s.len() ==> #[trigger] after_observe_all(s, files)[i].entry == s[i].entry,
        orphan_paths(after_observe_all(s, files)).len() == 0,
{
    lemma_observe_all_frame(s, files);
    assert forall|k: int|
        0 <= k < files.len() implies #[trigger] path_check_of(
        after_observe_all(s, files.take(k)),
        files[k],
    ) == PathCheck::Unchanged by {
        lemma_observe_all_frame(s, files.take(k));
        lemma_path_check_entries_equal(after_observe_all(s, files.take(k)), s, files[k]);
    }
    let sf = after_observe_all(s, files);
    assert forall|i: int| 0 <= i < sf.len() implies sf[i].seen by {
        let k = choose|k: int| 0 <= k < files.len() && #[trigger] files[k].path
            == s[i].entry.path;
        lemma_observe_all_marks_seen(s, files, i, k);
    }
    lemma_orphans_of_all_seen(sf);
}

/// The tolerance window.  A path-found file whose size is unchanged and
/// whose timestamp lies within the window — even a nonzero delta — is
/// classified `Unchanged`: no metadata refresh, no hashing.
pub proof fn lemma_tolerance_window(s: Seq<ItemModel>, f: FileModel)
    requires
        find_path(s, f.path) is Some,
        within_tolerance(
            s[find_path(s, f.path)->Some_0].entry.updated_at_ms,
            f.modified_at_ms,
        ),
        s[find_path(s, f.path)->Some_0].entry.file_size_bytes == f.size_bytes,
    ensures
        path_check_of(s, f) == PathCheck::Unchanged,
        forall|i: int| 0 <= i < s.len() ==> #[trigger] after_observe(s, f)[i].entry == s[i].entry,
{
    lemma_after_observe_frame(s, f);
}

/// Rename preservation.  When a file appears at an unknown path and some
/// live entry with the same content hash has lost its file, the pass
/// reclassifies that entry instead of inserting: the catalog keeps the
/// same number of entries, the claimed entry keeps its id and now records
/// the new path, every other entry is untouched, and paths stay distinct.
/// The classification is `Renamed`, or `RenamedModified` when size or
/// timestamp diverged as well.
pub proof fn lemma_rename_preserves_entry(
    s: Seq<ItemModel>,
    f: FileModel,
    digest: Seq<char>,
    video_length_ms: Option<int>,
    now_ms: int,
    on_disk: Seq<bool>,
)
    requires
        paths_distinct(s),
        find_path(s, f.path) is None,
        on_disk.len() == hash_matches(s, digest).len(),
        first_missing(on_disk) is Some,
    ensures
        ({
            let j = first_missing(on_disk)->Some_0;
            let i = hash_matches(s, digest)[j];
            let s2 = after_resolve(s, f, digest, video_length_ms, now_ms, on_disk).0;
            let c = after_resolve(s, f, digest, video_length_ms, now_ms, on_disk).1;
            &&& s2.len() == s.len()
            &&& 0 <= i < s.len()
            &&& s2[i].entry.id == s[i].entry.id
            &&& s2[i].entry.path == f.path
            &&& s2[i].entry.content_hash == digest
            &&& s2[i].seen
            &&& forall|k: int| 0 <= k < s.len() && k != i ==> s2[k] == s[k]
            &&& c == if entry_matches_file(s[i].entry, f) {
                Classification::Renamed
            } else {
                Classification::RenamedModified
            }
            &&& paths_distinct(s2)
        }),
{
    lemma_first_missing_props(on_disk);
    lemma_hash_matches_props(s, digest);
    lemma_find_path_props(s, f.path);
    let j = first_missing(on_disk)->Some_0;
    let i = hash_matches(s, digest)[j];
    let s2 = after_resolve(s, f, digest, video_length_ms, now_ms, on_disk).0;
    assert forall|a: int, b: int|
        0 <= a < b < s2.len() implies s2[a].entry.path != s2[b].entry.path by {
        if a != i {
            assert(s2[a] == s[a]);
            assert(s[a].entry.path != f.path);
        }
        if b != i {
            assert(s2[b] == s[b]);
            assert(s[b].entry.path != f.path);
        }
    }
}

/// Duplicate preservation.  When a file appears at an unknown path, its
/// content hash is already live, and every hash-sharing entry's file still
/// exists on disk, the pass inserts a second entry rather than stealing
/// one: the catalog grows by one, existing entries are untouched, and the
/// new entry shares the hash with a distinct old one.
pub proof fn lemma_duplicate_preserved(
    s: Seq<ItemModel>,
    f: FileModel,
    digest: Seq<char>,
    video_length_ms: Option<int>,
    now_ms: int,
    on_disk: Seq<bool>,
)
    requires
        paths_distinct(s),
        find_path(s, f.path) is None,
        on_disk.len() == hash_matches(s, digest).len(),
        first_missing(on_disk) is None,
        hash_matches(s, digest).len() > 0,
    ensures
        ({
            let s2 = after_resolve(s, f, digest, video_length_ms, now_ms, on_disk).0;
            let c = after_resolve(s, f, digest, video_length_ms, now_ms, on_disk).1;
            &&& c == Classification::NewDuplicate
            &&& s2.len() == s.len() + 1
            &&& forall|k: int| 0 <= k < s.len() ==> s2[k] == s[k]
            &&& s2.last().entry.content_hash == digest
            &&& s2.last().entry.path == f.path
            &&& s2.last().entry.id is None
            &&& exists|i: int|
                0 <= i < s.len() && #[trigger] s2[i].entry.content_hash == digest
            &&& paths_distinct(s2)
        }),
{
    lemma_hash_matches_props(s, digest);
    lemma_find_path_props(s, f.path);
    let s2 = after_resolve(s, f, digest, video_length_ms, now_ms, on_disk).0;
    let w = hash_matches(s, digest)[0];
    assert(0 <= w < s.len() && s[w].entry.content_hash == digest);
    assert(s2[w].entry.content_hash == digest);
    assert forall|a: int, b: int|
        0 <= a < b < s2.len() implies s2[a].entry.path != s2[b].entry.path by {
        if b == s2.len() - 1 {
            assert(s[a].entry.path != f.path);
        }
    }
}

/// Convergence of a metadata refresh: once a modified file is recorded,
/// its entry matches the file exactly, so the next pass classifies it
/// `Unchanged`.  Together with [`lemma_pass_idempotent`] this is why a
/// second run right after a pass performs no work.
pub proof fn lemma_modify_converges(s: Seq<ItemModel>, f: FileModel, digest: Seq<char>)
    requires
        find_path(s, f.path) is Some,
    ensures
        entry_matches_file(
            after_modify(s, f, digest)[find_path(s, f.path)->Some_0].entry,
            f,
        ),
{
    lemma_find_path_props(s, f.path);
}

/// Convergence of a resolution: whether the file was claimed as a rename
/// or inserted fresh, the entry accounting for it afterwards matches the
/// file exactly.
pub proof fn lemma_resolve_converges(
    s: Seq<ItemModel>,
    f: FileModel,
    digest: Seq<char>,
    video_length_ms: Option<int>,
    now_ms: int,
    on_disk: Seq<bool>,
)
    requires
        on_disk.len() == hash_matches(s, digest).len(),
    ensures
        ({
            let s2 = after_resolve(s, f, digest, video_length_ms, now_ms, on_disk).0;
            match first_missing(on_disk) {
                Option::Some(j) => entry_matches_file(
                    s2[hash_matches(s, digest)[j]].entry,
                    f,
                ),
                Option::None => entry_matches_file(s2.last().entry, f),
            }
        }),
{
    lemma_first_missing_props(on_disk);
    lemma_hash_matches_props(s, digest);
}

/// Orphan sweep completeness: every entry the pass never accounted for is
/// listed for deletion, and nothing else is.
pub proof fn lemma_orphan_sweep_complete(s: Seq<ItemModel>, i: int)
    requires
        0 <= i < s.len(),
        !s[i].seen,
    ensures
        orphan_paths(s).contains(s[i].entry.path),
    decreases s.len(),
{
    if i == s.len() - 1 {
        assert(orphan_paths(s).last() == s[i].entry.path);
    } else {
        lemma_orphan_sweep_complete(s.drop_last(), i);
        let pre = orphan_paths(s.drop_last());
        let w = choose|w: int| 0 <= w < pre.len() && pre[w] == s[i].entry.path;
        if !s.last().seen {
            assert(orphan_paths(s)[w] == s[i].entry.path);
        } else {
            assert(orphan_paths(s)[w] == s[i].entry.path);
        }
    }
}

/// Orphan sweep soundness: everything listed for deletion is an entry the
/// pass never accounted for.
pub proof fn lemma_orphan_sweep_sound(s: Seq<ItemModel>, k: int)
    requires
        0 <= k < orphan_paths(s).len(),
    ensures
        exists|i: int|
            0 <= i < s.len() && !s[i].seen && #[trigger] s[i].entry.path == orphan_paths(s)[k],
    decreases s.len(),
{
    if s.len() == 0 {
    } else {
        let pre = orphan_paths(s.drop_last());
        if k < pre.len() {
            lemma_orphan_sweep_sound(s.drop_last(), k);
            let i = choose|i: int|
                0 <= i < s.len() - 1 && !s.drop_last()[i].seen && #[trigger] s.drop_last()[
                    i
                ].entry.path == pre[k];
            assert(s[i].entry.path == orphan_paths(s)[k]);
        } else {
            assert(!s.last().seen);
            assert(s[s.len() - 1].entry.path == orphan_paths(s)[k]);
        }
    }
}

} // verus!
