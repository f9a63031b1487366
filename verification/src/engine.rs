//! The reconciliation engine: classifies each scanned file against the
//! catalog and drives the minimal mutations that converge the two.
//!
//! The engine never touches a disk or a database itself.  A caller walks
//! the tree and drives one [`ReconcilePass`] per run:
//!
//! 1. [`ReconcilePass::observe_file`] answers the path lookup.  `Unchanged`
//!    needs nothing further; `Modified` asks the caller to hash the file's
//!    bytes and call [`ReconcilePass::record_modified`]; `NotFound` asks it
//!    to hash and then resolve the file's identity.
//! 2. For an unknown path, [`ReconcilePass::hash_candidates`] lists the
//!    live paths sharing the digest; the caller reports which of them still
//!    exist on disk and [`ReconcilePass::resolve_unknown`] classifies the
//!    file as renamed, renamed-and-modified, new, or a new duplicate.
//! 3. [`ReconcilePass::finish`] lists the orphans the sweep must delete.
//!
//! Every step returns the storage mutations the caller must apply; the
//! engine mirrors them in its own index so later steps see the live state.

use vstd::prelude::*;
use crate::index::{
    CatalogIndex, IndexItem, ItemModel, candidate_paths, find_path, hash_matches,
    lemma_find_path_props, lemma_hash_matches_props, orphan_paths, paths_distinct,
};
use crate::model::{
    CatalogEntry, EntryModel, FileModel, FileStat, MediaKind, UpdateStats, check_entry_matches_file,
    entry_matches_file, opt_int,
};
use crate::paths::{
    file_name_of, get_extension, media_kind_of, spec_file_name, spec_get_extension,
    spec_media_kind,
};

verus! {

/// How a scanned file relates to the catalog, once settled.
#[derive(Clone, Copy, Debug, PartialEq, Eq, Structural)]
pub enum Classification {
    /// Path found, size equal, timestamp within tolerance: nothing to do.
    Unchanged,
    /// Path found but size or timestamp diverged: metadata refreshed.
    Modified,
    /// Path unknown, but an entry with the same content lost its file: that
    /// entry now points here.
    Renamed,
    /// A rename whose file also diverged in size or timestamp.
    RenamedModified,
    /// Content never seen: a fresh entry.
    New,
    /// Content already live elsewhere on disk: a fresh entry all the same.
    NewDuplicate,
    /// A catalog entry whose file is gone and was not matched as a rename.
    Orphaned,
}

/// Outcome of the path lookup for one scanned file.
#[derive(Clone, Copy, Debug, PartialEq, Eq, Structural)]
pub enum PathCheck {
    /// The entry at this path still matches the file.
    Unchanged,
    /// The entry at this path diverged: hash the file, then record it.
    Modified,
    /// No live entry records this path: hash the file, then resolve it.
    NotFound,
}

/// One storage mutation the caller must apply to the persisted catalog.
pub enum Mutation {
    /// Insert a fresh entry (its id is storage-assigned) and generate its
    /// thumbnail.
    InsertEntry { entry: CatalogEntry },
    /// Refresh hash, size and timestamp of the entry at `path`, and
    /// regenerate its thumbnail.
    UpdateMetadata { path: String, content_hash: String, file_size_bytes: u64, updated_at_ms: i64 },
    /// Move the entry at `old_path` to `new_path`, refreshing its basename
    /// and timestamp; no thumbnail work.
    UpdatePath { old_path: String, new_path: String, new_file_name: String, updated_at_ms: i64 },
}

/// Ghost view of a [`Mutation`].
pub ghost enum MutationModel {
    InsertEntry { entry: EntryModel },
    UpdateMetadata {
        path: Seq<char>,
        content_hash: Seq<char>,
        file_size_bytes: int,
        updated_at_ms: int,
    },
    UpdatePath {
        old_path: Seq<char>,
        new_path: Seq<char>,
        new_file_name: Seq<char>,
        updated_at_ms: int,
    },
}

impl View for Mutation {
    type V = MutationModel;

    open spec fn view(&self) -> MutationModel {
        match self {
            Mutation::InsertEntry { entry } => MutationModel::InsertEntry { entry: entry@ },
            Mutation::UpdateMetadata { path, content_hash, file_size_bytes, updated_at_ms } => {
                MutationModel::UpdateMetadata {
                    path: path@,
                    content_hash: content_hash@,
                    file_size_bytes: *file_size_bytes as int,
                    updated_at_ms: *updated_at_ms as int,
                }
            },
            Mutation::UpdatePath { old_path, new_path, new_file_name, updated_at_ms } => {
                MutationModel::UpdatePath {
                    old_path: old_path@,
                    new_path: new_path@,
                    new_file_name: new_file_name@,
                    updated_at_ms: *updated_at_ms as int,
                }
            },
        }
    }
}

/// Whether a classification triggers thumbnail regeneration: exactly on
/// new, new-duplicate, modified, and renamed-and-modified files.
pub open spec fn spec_needs_thumbnail(c: Classification) -> bool {
    ||| c == Classification::New
    ||| c == Classification::NewDuplicate
    ||| c == Classification::Modified
    ||| c == Classification::RenamedModified
}

/// Exec form of [`spec_needs_thumbnail`].
pub fn needs_thumbnail(c: Classification) -> (r: bool)
    ensures
        r == spec_needs_thumbnail(c),
{
    match c {
        Classification::New => true,
        Classification::NewDuplicate => true,
        Classification::Modified => true,
        Classification::RenamedModified => true,
        _ => false,
    }
}

/// Outcome of the path lookup, at the model level.
pub open spec fn path_check_of(s: Seq<ItemModel>, f: FileModel) -> PathCheck {
    match find_path(s, f.path) {
        Option::None => PathCheck::NotFound,
        Option::Some(i) => if entry_matches_file(s[i].entry, f) {
            PathCheck::Unchanged
        } else {
            PathCheck::Modified
        },
    }
}

/// State after the path lookup: the matched item, if any, is marked seen;
/// nothing else moves.
pub open spec fn after_observe(s: Seq<ItemModel>, f: FileModel) -> Seq<ItemModel> {
    match find_path(s, f.path) {
        Option::None => s,
        Option::Some(i) => s.update(i, ItemModel { seen: true, ..s[i] }),
    }
}

/// An entry refreshed after its file changed: new hash, size and timestamp.
pub open spec fn modified_entry(e: EntryModel, f: FileModel, digest: Seq<char>) -> EntryModel {
    EntryModel {
        content_hash: digest,
        file_size_bytes: f.size_bytes,
        updated_at_ms: f.modified_at_ms,
        ..e
    }
}

/// State after a modified file was recorded.
pub open spec fn after_modify(s: Seq<ItemModel>, f: FileModel, digest: Seq<char>) -> Seq<
    ItemModel,
> {
    match find_path(s, f.path) {
        Option::None => s,
        Option::Some(i) => s.update(
            i,
            ItemModel {
                entry: modified_entry(s[i].entry, f, digest),
                seen: true,
                inserted: s[i].inserted,
            },
        ),
    }
}

/// The metadata-refresh mutation for a modified file.
pub open spec fn modify_mutation(f: FileModel, digest: Seq<char>) -> MutationModel {
    MutationModel::UpdateMetadata {
        path: f.path,
        content_hash: digest,
        file_size_bytes: f.size_bytes,
        updated_at_ms: f.modified_at_ms,
    }
}

/// An entry moved to a renamed file's location: new path and basename, and
/// the timestamp refreshed to the file's.
pub open spec fn renamed_entry(e: EntryModel, f: FileModel) -> EntryModel {
    EntryModel {
        path: f.path,
        file_name: spec_file_name(f.path),
        updated_at_ms: f.modified_at_ms,
        ..e
    }
}

/// The entry a fresh file gets: metadata read from the path, the digest as
/// identity, creation stamped with the pass clock, and the file's own
/// modification time recorded.
pub open spec fn new_entry_model(
    f: FileModel,
    digest: Seq<char>,
    video_length_ms: Option<int>,
    now_ms: int,
) -> EntryModel {
    EntryModel {
        id: Option::None,
        path: f.path,
        file_name: spec_file_name(f.path),
        file_size_bytes: f.size_bytes,
        file_extension: spec_get_extension(f.path),
        media_kind: spec_media_kind(f.path),
        video_length_ms: if spec_media_kind(f.path) == MediaKind::Video {
            video_length_ms
        } else {
            Option::None
        },
        content_hash: digest,
        created_at_ms: now_ms,
        updated_at_ms: f.modified_at_ms,
    }
}

/// First position that reports a candidate's recorded path missing from
/// disk — the rename tie-break: the first such entry in index order wins.
pub open spec fn first_missing(on_disk: Seq<bool>) -> Option<int>
    decreases on_disk.len(),
{
    if on_disk.len() == 0 {
        Option::None
    } else if !on_disk[0] {
        Option::Some(0int)
    } else {
        match first_missing(on_disk.drop_first()) {
            Option::None => Option::None,
            Option::Some(j) => Option::Some(j + 1),
        }
    }
}

/// What [`first_missing`] returns: the first `false`, or `None` when every
/// candidate is still on disk.
pub proof fn lemma_first_missing_props(on_disk: Seq<bool>)
    ensures
        match first_missing(on_disk) {
            Option::None => forall|k: int| 0 <= k < on_disk.len() ==> on_disk[k],
            Option::Some(j) => 0 <= j < on_disk.len() && !on_disk[j] && (forall|k: int|
                0 <= k < j ==> on_disk[k]),
        },
    decreases on_disk.len(),
{
    if on_disk.len() == 0 {
    } else if !on_disk[0] {
    } else {
        lemma_first_missing_props(on_disk.drop_first());
        let d = on_disk.drop_first();
        assert(forall|k: int| 0 <= k < d.len() ==> d[k] == on_disk[k + 1]);
        match first_missing(d) {
            Option::None => {
                assert forall|k: int| 0 <= k < on_disk.len() implies on_disk[k] by {
                    if k > 0 {
                        assert(d[k - 1] == on_disk[k]);
                    }
                }
            },
            Option::Some(j) => {
                assert(!on_disk[j + 1]);
                assert forall|k: int| 0 <= k < j + 1 implies on_disk[k] by {
                    if k > 0 {
                        assert(d[k - 1] == on_disk[k]);
                    }
                }
            },
        }
    }
}

/// Exec scan for the first candidate reported missing from disk.
fn first_missing_index(flags: &Vec<bool>) -> (r: Option<usize>)
    ensures
        match r {
            Option::None => first_missing(flags@) is None,
            Option::Some(j) => first_missing(flags@) == Option::Some(j as int),
        },
{
    let n = flags.len();
    let mut j: usize = 0;
    while j < n
        invariant
            j <= n,
            n == flags@.len(),
            forall|k: int| 0 <= k < j ==> flags@[k],
        decreases n - j,
    {
        if !flags[j] {
            proof {
                lemma_first_missing_props(flags@);
                match first_missing(flags@) {
                    Option::None => {
                        assert(flags@[j as int]);
                    },
                    Option::Some(j0) => {
                        if j0 < j {
                            assert(flags@[j0]);
                        } else if j0 > j {
                            assert(flags@[j as int]);
                        }
                    },
                }
            }
            return Option::Some(j);
        }
        j += 1;
    }
    proof {
        lemma_first_missing_props(flags@);
        if first_missing(flags@) is Some {
            let j0 = first_missing(flags@)->Some_0;
            assert(flags@[j0]);
        }
    }
    Option::None
}

/// State and classification after an unknown path was resolved through its
/// content hash.  `on_disk[j]` reports whether the `j`-th hash-sharing
/// entry's recorded path still exists on disk.
pub open spec fn after_resolve(
    s: Seq<ItemModel>,
    f: FileModel,
    digest: Seq<char>,
    video_length_ms: Option<int>,
    now_ms: int,
    on_disk: Seq<bool>,
) -> (Seq<ItemModel>, Classification) {
    let cands = hash_matches(s, digest);
    match first_missing(on_disk) {
        Option::Some(j) => {
            let i = cands[j];
            let e = s[i].entry;
            let divergent = !entry_matches_file(e, f);
            let e2 = if divergent {
                modified_entry(renamed_entry(e, f), f, digest)
            } else {
                renamed_entry(e, f)
            };
            (
                s.update(i, ItemModel { entry: e2, seen: true, inserted: s[i].inserted }),
                if divergent {
                    Classification::RenamedModified
                } else {
                    Classification::Renamed
                },
            )
        },
        Option::None => (
            s.push(
                ItemModel {
                    entry: new_entry_model(f, digest, video_length_ms, now_ms),
                    seen: true,
                    inserted: true,
                },
            ),
            if cands.len() == 0 {
                Classification::New
            } else {
                Classification::NewDuplicate
            },
        ),
    }
}

/// The storage mutations that resolving an unknown path emits.
pub open spec fn resolve_mutations(
    s: Seq<ItemModel>,
    f: FileModel,
    digest: Seq<char>,
    video_length_ms: Option<int>,
    now_ms: int,
    on_disk: Seq<bool>,
) -> Seq<MutationModel> {
    let cands = hash_matches(s, digest);
    match first_missing(on_disk) {
        Option::Some(j) => {
            let e = s[cands[j]].entry;
            let up = MutationModel::UpdatePath {
                old_path: e.path,
                new_path: f.path,
                new_file_name: spec_file_name(f.path),
                updated_at_ms: f.modified_at_ms,
            };
            if !entry_matches_file(e, f) {
                seq![up, modify_mutation(f, digest)]
            } else {
                seq![up]
            }
        },
        Option::None => seq![
            MutationModel::InsertEntry {
                entry: new_entry_model(f, digest, video_length_ms, now_ms),
            },
        ],
    }
}

/// Classification and storage mutations for one resolved file.
pub struct Resolution {
    pub classification: Classification,
    pub mutations: Vec<Mutation>,
}

/// One reconciliation pass over the catalog.
pub struct ReconcilePass {
    index: CatalogIndex,
    now_ms: i64,
}

impl View for ReconcilePass {
    type V = Seq<ItemModel>;

    closed spec fn view(&self) -> Seq<ItemModel> {
        self.index@
    }
}

impl ReconcilePass {
    /// The clock value the pass stamps on entries it creates.
    pub closed spec fn now(&self) -> int {
        self.now_ms as int
    }

    /// The pass is well-formed: live paths are pairwise distinct.
    pub open spec fn wf(&self) -> bool {
        paths_distinct(self@)
    }

    /// Begin a pass over the full persisted catalog.  `now_ms` stamps
    /// `created_at_ms` of entries inserted during the pass.
    pub fn start(entries: &Vec<CatalogEntry>, now_ms: i64) -> (p: ReconcilePass)
        requires
            forall|i: int, j: int|
                0 <= i < j < entries@.len() ==> entries@[i]@.path != entries@[j]@.path,
        ensures
            p@.len() == entries@.len(),
            forall|i: int|
                0 <= i < entries@.len() ==> p@[i] == (ItemModel {
                    entry: entries@[i]@,
                    seen: false,
                    inserted: false,
                }),
            p.wf(),
            p.now() == now_ms as int,
    {
        ReconcilePass { index: CatalogIndex::new(entries), now_ms }
    }

    /// Path lookup for one scanned file.  A found entry is marked seen; a
    /// diverged or unknown file must be hashed by the caller and fed back
    /// through [`Self::record_modified`] or [`Self::resolve_unknown`].
    pub fn observe_file(&mut self, f: &FileStat) -> (r: PathCheck)
        requires
            old(self).wf(),
        ensures
            final(self)@ == after_observe(old(self)@, f@),
            r == path_check_of(old(self)@, f@),
            final(self).wf(),
            final(self).now() == old(self).now(),
    {
        let r = match self.index.lookup_by_path(&f.path) {
            Option::Some(i) => {
                let matches_file = check_entry_matches_file(self.index.entry_at(i), f);
                self.index.mark_seen(i);
                if matches_file {
                    PathCheck::Unchanged
                } else {
                    PathCheck::Modified
                }
            },
            Option::None => PathCheck::NotFound,
        };
        proof {
            let s1 = old(self)@;
            let s2 = final(self)@;
            assert(s2.len() == s1.len());
            assert forall|a: int, b: int|
                0 <= a < b < s2.len() implies s2[a].entry.path != s2[b].entry.path by {
                assert(s2[a].entry == s1[a].entry);
                assert(s2[b].entry == s1[b].entry);
            }
        }
        r
    }

    /// Record a path-found file whose size or timestamp diverged: the
    /// caller hashed its bytes and hands the digest in.  The entry is
    /// refreshed and the matching metadata mutation returned; its
    /// thumbnail must be regenerated.
    pub fn record_modified(&mut self, f: &FileStat, digest: &String) -> (m: Mutation)
        requires
            old(self).wf(),
            find_path(old(self)@, f@.path) is Some,
        ensures
            final(self)@ == after_modify(old(self)@, f@, digest@),
            m@ == modify_mutation(f@, digest@),
            final(self).wf(),
            final(self).now() == old(self).now(),
    {
        match self.index.lookup_by_path(&f.path) {
            Option::Some(i) => {
                let it = self.index.item_at(i);
                let e = &it.entry;
                let inserted = it.inserted;
                let replacement = CatalogEntry {
                    id: e.id,
                    path: e.path.clone(),
                    file_name: e.file_name.clone(),
                    file_size_bytes: f.size_bytes,
                    file_extension: e.file_extension.clone(),
                    media_kind: e.media_kind,
                    video_length_ms: e.video_length_ms,
                    content_hash: digest.clone(),
                    created_at_ms: e.created_at_ms,
                    updated_at_ms: f.modified_at_ms,
                };
                self.index.set_item(i, IndexItem { entry: replacement, seen: true, inserted });
                proof {
                    let s1 = old(self)@;
                    let s2 = final(self)@;
                    assert forall|a: int, b: int|
                        0 <= a < b < s2.len() implies s2[a].entry.path != s2[b].entry.path by {
                        assert(s2[a].entry.path == s1[a].entry.path);
                        assert(s2[b].entry.path == s1[b].entry.path);
                    }
                }
                Mutation::UpdateMetadata {
                    path: f.path.clone(),
                    content_hash: digest.clone(),
                    file_size_bytes: f.size_bytes,
                    updated_at_ms: f.modified_at_ms,
                }
            },
            Option::None => vstd::pervasive::unreached(),
        }
    }

    /// Positions of the live entries sharing `digest`, ascending.
    fn hash_match_indices(&self, digest: &String) -> (r: Vec<usize>)
        ensures
            r@.len() == hash_matches(self@, digest@).len(),
            forall|k: int| 0 <= k < r@.len() ==> r@[k] as int == hash_matches(self@, digest@)[k],
    {
        let n = self.index.len();
        let mut r: Vec<usize> = Vec::new();
        let mut i: usize = 0;
        while i < n
            invariant
                n == self@.len(),
                i <= n,
                r@.len() == hash_matches(self@.subrange(0, i as int), digest@).len(),
                forall|k: int|
                    0 <= k < r@.len() ==> r@[k] as int == hash_matches(
                        self@.subrange(0, i as int),
                        digest@,
                    )[k],
            decreases n - i,
        {
            proof {
                assert(self@.subrange(0, i + 1).drop_last() =~= self@.subrange(0, i as int));
                assert(self@.subrange(0, i + 1).last() == self@[i as int]);
            }
            if self.index.entry_at(i).content_hash == *digest {
                r.push(i);
            }
            i += 1;
        }
        proof {
            assert(self@.subrange(0, n as int) =~= self@);
        }
        r
    }

    /// Recorded paths of the live entries sharing `digest`, in index order:
    /// the candidates a rename may claim.  The caller reports for each
    /// whether a file still exists at that path.
    pub fn hash_candidates(&self, digest: &String) -> (r: Vec<String>)
        ensures
            r@.len() == candidate_paths(self@, digest@).len(),
            forall|k: int| 0 <= k < r@.len() ==> r@[k]@ == candidate_paths(self@, digest@)[k],
    {
        let idxs = self.hash_match_indices(digest);
        proof {
            lemma_hash_matches_props(self@, digest@);
        }
        let m = idxs.len();
        let mut r: Vec<String> = Vec::new();
        let mut k: usize = 0;
        while k < m
            invariant
                m == idxs@.len(),
                m == hash_matches(self@, digest@).len(),
                forall|k2: int|
                    0 <= k2 < m ==> idxs@[k2] as int == hash_matches(self@, digest@)[k2] && 0
                        <= idxs@[k2] < self@.len(),
                k <= m,
                r@.len() == k,
                forall|k2: int|
                    0 <= k2 < k ==> r@[k2]@ == candidate_paths(self@, digest@)[k2],
            decreases m - k,
        {
            let i = idxs[k];
            r.push(self.index.entry_at(i).path.clone());
            k += 1;
        }
        r
    }

    /// Resolve a file whose path is unknown to the catalog.  The caller
    /// hashed its bytes, probed which candidate paths still exist on disk
    /// (`exists_on_disk`, aligned with [`Self::hash_candidates`]), and — for
    /// a video — probed its duration.  The first candidate missing from
    /// disk is claimed as a rename; otherwise a fresh entry is inserted.
    pub fn resolve_unknown(
        &mut self,
        f: &FileStat,
        digest: &String,
        video_length_ms: Option<u64>,
        exists_on_disk: &Vec<bool>,
    ) -> (r: Resolution)
        requires
            old(self).wf(),
            find_path(old(self)@, f@.path) is None,
            exists_on_disk@.len() == hash_matches(old(self)@, digest@).len(),
        ensures
            final(self)@ == after_resolve(
                old(self)@,
                f@,
                digest@,
                opt_int(video_length_ms),
                old(self).now(),
                exists_on_disk@,
            ).0,
            r.classification == after_resolve(
                old(self)@,
                f@,
                digest@,
                opt_int(video_length_ms),
                old(self).now(),
                exists_on_disk@,
            ).1,
            r.mutations@.len() == resolve_mutations(
                old(self)@,
                f@,
                digest@,
                opt_int(video_length_ms),
                old(self).now(),
                exists_on_disk@,
            ).len(),
            forall|k: int|
                0 <= k < r.mutations@.len() ==> r.mutations@[k]@ == resolve_mutations(
                    old(self)@,
                    f@,
                    digest@,
                    opt_int(video_length_ms),
                    old(self).now(),
                    exists_on_disk@,
                )[k],
            final(self).wf(),
            final(self).now() == old(self).now(),
    {
        proof {
            lemma_find_path_props(old(self)@, f@.path);
            lemma_hash_matches_props(old(self)@, digest@);
        }
        let idxs = self.hash_match_indices(digest);
        let missing = first_missing_index(exists_on_disk);
        match missing {
            Option::Some(j) => {
                proof {
                    lemma_first_missing_props(exists_on_disk@);
                }
                let i = idxs[j];
                let it = self.index.item_at(i);
                let e = &it.entry;
                let inserted = it.inserted;
                let divergent = !check_entry_matches_file(e, f);
                let new_name = file_name_of(f.path.as_str());
                let update_path = Mutation::UpdatePath {
                    old_path: e.path.clone(),
                    new_path: f.path.clone(),
                    new_file_name: new_name.clone(),
                    updated_at_ms: f.modified_at_ms,
                };
                let replacement = CatalogEntry {
                    id: e.id,
                    path: f.path.clone(),
                    file_name: new_name,
                    file_size_bytes: if divergent {
                        f.size_bytes
                    } else {
                        e.file_size_bytes
                    },
                    file_extension: e.file_extension.clone(),
                    media_kind: e.media_kind,
                    video_length_ms: e.video_length_ms,
                    content_hash: if divergent {
                        digest.clone()
                    } else {
                        e.content_hash.clone()
                    },
                    created_at_ms: e.created_at_ms,
                    updated_at_ms: f.modified_at_ms,
                };
                let mut mutations: Vec<Mutation> = Vec::new();
                mutations.push(update_path);
                if divergent {
                    mutations.push(
                        Mutation::UpdateMetadata {
                            path: f.path.clone(),
                            content_hash: digest.clone(),
                            file_size_bytes: f.size_bytes,
                            updated_at_ms: f.modified_at_ms,
                        },
                    );
                }
                self.index.set_item(i, IndexItem { entry: replacement, seen: true, inserted });
                proof {
                    let s1 = old(self)@;
                    let s2 = final(self)@;
                    assert forall|a: int, b: int|
                        0 <= a < b < s2.len() implies s2[a].entry.path != s2[b].entry.path by {
                        if a != i as int {
                            assert(s2[a] == s1[a]);
                            assert(s1[a].entry.path != f@.path);
                        }
                        if b != i as int {
                            assert(s2[b] == s1[b]);
                            assert(s1[b].entry.path != f@.path);
                        }
                    }
                }
                Resolution {
                    classification: if divergent {
                        Classification::RenamedModified
                    } else {
                        Classification::Renamed
                    },
                    mutations,
                }
            },
            Option::None => {
                let kind = media_kind_of(f.path.as_str());
                let entry = CatalogEntry {
                    id: Option::None,
                    path: f.path.clone(),
                    file_name: file_name_of(f.path.as_str()),
                    file_size_bytes: f.size_bytes,
                    file_extension: get_extension(f.path.as_str()),
                    media_kind: kind,
                    video_length_ms: match kind {
                        MediaKind::Video => video_length_ms,
                        _ => Option::None,
                    },
                    content_hash: digest.clone(),
                    created_at_ms: self.now_ms,
                    updated_at_ms: f.modified_at_ms,
                };
                let classification = if idxs.len() == 0 {
                    Classification::New
                } else {
                    Classification::NewDuplicate
                };
                let mut mutations: Vec<Mutation> = Vec::new();
                mutations.push(Mutation::InsertEntry { entry: entry.clone() });
                self.index.push_item(IndexItem { entry, seen: true, inserted: true });
                proof {
                    let s1 = old(self)@;
                    let s2 = final(self)@;
                    assert forall|a: int, b: int|
                        0 <= a < b < s2.len() implies s2[a].entry.path != s2[b].entry.path by {
                        if b == s2.len() - 1 {
                            assert(s1[a].entry.path != f@.path);
                        }
                    }
                }
                Resolution { classification, mutations }
            },
        }
    }

    /// End the pass: the recorded paths of the entries never accounted for.
    /// Each is orphaned and must be deleted; per-entry deletion failures
    /// are the caller's to log, not to propagate.
    pub fn finish(&self) -> (orphans: Vec<String>)
        ensures
            orphans@.len() == orphan_paths(self@).len(),
            forall|k: int| 0 <= k < orphans@.len() ==> orphans@[k]@ == orphan_paths(self@)[k],
    {
        self.index.entries_not_seen()
    }
}

/// Saturating increment for a statistics counter.
fn bump(c: i32) -> (r: i32)
    ensures
        r as int == spec_bump(c as int),
{
    if c < i32::MAX {
        c + 1
    } else {
        c
    }
}

/// Saturating increment, at the model level.
pub open spec fn spec_bump(c: int) -> int {
    if c < i32::MAX as int {
        c + 1
    } else {
        c
    }
}

/// The counters after one file outcome is recorded.
pub open spec fn spec_record_outcome(s: UpdateStats, c: Classification, kind: MediaKind) -> UpdateStats {
    UpdateStats {
        scanned_count: s.scanned_count,
        deleted_count: if c == Classification::Orphaned {
            spec_bump(s.deleted_count as int) as i32
        } else {
            s.deleted_count
        },
        renamed_count: if c == Classification::Renamed || c == Classification::RenamedModified {
            spec_bump(s.renamed_count as int) as i32
        } else {
            s.renamed_count
        },
        processed_video_count: if (c == Classification::New || c == Classification::NewDuplicate)
            && kind == MediaKind::Video {
            spec_bump(s.processed_video_count as int) as i32
        } else {
            s.processed_video_count
        },
        processed_image_count: if (c == Classification::New || c == Classification::NewDuplicate)
            && kind == MediaKind::Image {
            spec_bump(s.processed_image_count as int) as i32
        } else {
            s.processed_image_count
        },
    }
}

impl UpdateStats {
    /// Count one more scanned file.
    pub fn record_scanned(&mut self)
        ensures
            final(self).scanned_count as int == spec_bump(old(self).scanned_count as int),
            final(self).deleted_count == old(self).deleted_count,
            final(self).renamed_count == old(self).renamed_count,
            final(self).processed_video_count == old(self).processed_video_count,
            final(self).processed_image_count == old(self).processed_image_count,
    {
        self.scanned_count = bump(self.scanned_count);
    }

    /// Record the outcome of one file or orphan.
    pub fn record_outcome(&mut self, c: Classification, kind: MediaKind)
        ensures
            *final(self) == spec_record_outcome(*old(self), c, kind),
    {
        match c {
            Classification::Orphaned => {
                self.deleted_count = bump(self.deleted_count);
            },
            Classification::Renamed | Classification::RenamedModified => {
                self.renamed_count = bump(self.renamed_count);
            },
            Classification::New | Classification::NewDuplicate => {
                match kind {
                    MediaKind::Video => {
                        self.processed_video_count = bump(self.processed_video_count);
                    },
                    MediaKind::Image => {
                        self.processed_image_count = bump(self.processed_image_count);
                    },
                    MediaKind::Unknown => {},
                }
            },
            _ => {},
        }
    }
}

} // verus!
