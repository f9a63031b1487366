//! In-memory projection of the persisted catalog, built once per pass.
//!
//! The index keeps every live entry together with a `seen` flag (set when
//! the walk accounts for the entry) and an `inserted` flag (set on entries
//! created during the current pass).  Its invariant is the catalog's: at
//! most one live entry per path.

use vstd::prelude::*;
use crate::model::{CatalogEntry, EntryModel};

verus! {

/// One catalog entry as a reconciliation pass tracks it.
pub struct IndexItem {
    pub entry: CatalogEntry,
    /// Whether this pass has accounted for the entry.
    pub seen: bool,
    /// Whether the entry was created during this pass.
    pub inserted: bool,
}

/// Ghost view of an [`IndexItem`].
pub ghost struct ItemModel {
    pub entry: EntryModel,
    pub seen: bool,
    pub inserted: bool,
}

impl View for IndexItem {
    type V = ItemModel;

    open spec fn view(&self) -> ItemModel {
        ItemModel { entry: self.entry@, seen: self.seen, inserted: self.inserted }
    }
}

/// Index of the first item whose entry records path `p`, if any.
pub open spec fn find_path(s: Seq<ItemModel>, p: Seq<char>) -> Option<int>
    decreases s.len(),
{
    if s.len() == 0 {
        Option::None
    } else if s[0].entry.path == p {
        Option::Some(0int)
    } else {
        match find_path(s.drop_first(), p) {
            Option::None => Option::None,
            Option::Some(i) => Option::Some(i + 1),
        }
    }
}

/// What [`find_path`] returns: the first index recording `p`, or `None`
/// when no item does.
pub proof fn lemma_find_path_props(s: Seq<ItemModel>, p: Seq<char>)
    ensures
        match find_path(s, p) {
            Option::None => forall|j: int| 0 <= j < s.len() ==> s[j].entry.path != p,
            Option::Some(i) => 0 <= i < s.len() && s[i].entry.path == p && (forall|j: int|
                0 <= j < i ==> s[j].entry.path != p),
        },
    decreases s.len(),
{
    if s.len() == 0 {
    } else if s[0].entry.path == p {
    } else {
        lemma_find_path_props(s.drop_first(), p);
        let d = s.drop_first();
        assert(forall|j: int| 0 <= j < d.len() ==> d[j] == s[j + 1]);
        match find_path(d, p) {
            Option::None => {
                assert forall|j: int| 0 <= j < s.len() implies s[j].entry.path != p by {
                    if j > 0 {
                        assert(d[j - 1] == s[j]);
                        assert(d[j - 1].entry.path != p);
                    }
                }
            },
            Option::Some(i) => {
                assert(s[i + 1].entry.path == p);
                assert forall|j: int| 0 <= j < i + 1 implies s[j].entry.path != p by {
                    if j > 0 {
                        assert(d[j - 1] == s[j]);
                        assert(d[j - 1].entry.path != p);
                    }
                }
            },
        }
    }
}

/// All item indices recording paths distinct: the catalog invariant.
pub open spec fn paths_distinct(s: Seq<ItemModel>) -> bool {
    forall|i: int, j: int| 0 <= i < j < s.len() ==> s[i].entry.path != s[j].entry.path
}

/// Indices of the items whose entry records content hash `h`, ascending.
pub open spec fn hash_matches(s: Seq<ItemModel>, h: Seq<char>) -> Seq<int>
    decreases s.len(),
{
    if s.len() == 0 {
        Seq::empty()
    } else {
        let pre = hash_matches(s.drop_last(), h);
        if s.last().entry.content_hash == h {
            pre.push(s.len() - 1)
        } else {
            pre
        }
    }
}

/// Paths recorded by the items sharing content hash `h`, in index order.
pub open spec fn candidate_paths(s: Seq<ItemModel>, h: Seq<char>) -> Seq<Seq<char>> {
    hash_matches(s, h).map_values(|i: int| s[i].entry.path)
}

/// What [`hash_matches`] lists: exactly the indices recording `h`, in
/// ascending order.
pub proof fn lemma_hash_matches_props(s: Seq<ItemModel>, h: Seq<char>)
    ensures
        forall|k: int|
            0 <= k < hash_matches(s, h).len() ==> 0 <= #[trigger] hash_matches(s, h)[k]
                < s.len() && s[hash_matches(s, h)[k]].entry.content_hash == h,
        forall|k1: int, k2: int|
            0 <= k1 < k2 < hash_matches(s, h).len() ==> hash_matches(s, h)[k1] < hash_matches(
                s,
                h,
            )[k2],
        forall|i: int|
            0 <= i < s.len() && s[i].entry.content_hash == h ==> hash_matches(s, h).contains(i),
    decreases s.len(),
{
    if s.len() == 0 {
    } else {
        lemma_hash_matches_props(s.drop_last(), h);
        let pre = hash_matches(s.drop_last(), h);
        assert(forall|j: int| 0 <= j < s.len() - 1 ==> s.drop_last()[j] == s[j]);
        assert forall|i: int|
            0 <= i < s.len() && s[i].entry.content_hash == h implies hash_matches(
            s,
            h,
        ).contains(i) by {
            if i < s.len() - 1 {
                assert(pre.contains(i));
                let k = choose|k: int| 0 <= k < pre.len() && pre[k] == i;
                if s.last().entry.content_hash == h {
                    assert(hash_matches(s, h)[k] == i);
                } else {
                    assert(hash_matches(s, h)[k] == i);
                }
            } else {
                assert(s.last().entry.content_hash == h);
                assert(hash_matches(s, h).last() == i);
            }
        }
    }
}

/// Paths of the items never seen this pass, in index order.
pub open spec fn orphan_paths(s: Seq<ItemModel>) -> Seq<Seq<char>>
    decreases s.len(),
{
    if s.len() == 0 {
        Seq::empty()
    } else {
        let pre = orphan_paths(s.drop_last());
        if !s.last().seen {
            pre.push(s.last().entry.path)
        } else {
            pre
        }
    }
}

/// The in-memory catalog projection: every live entry with its pass flags.
pub struct CatalogIndex {
    items: Vec<IndexItem>,
}

impl View for CatalogIndex {
    type V = Seq<ItemModel>;

    closed spec fn view(&self) -> Seq<ItemModel> {
        self.items@.map_values(|it: IndexItem| it@)
    }
}

impl CatalogIndex {
    /// The index is well-formed: live paths are pairwise distinct.
    pub open spec fn wf(&self) -> bool {
        paths_distinct(self@)
    }

    /// Build the index from the full persisted catalog, nothing seen yet.
    pub fn new(entries: &Vec<CatalogEntry>) -> (idx: CatalogIndex)
        requires
            forall|i: int, j: int|
                0 <= i < j < entries@.len() ==> entries@[i]@.path != entries@[j]@.path,
        ensures
            idx@.len() == entries@.len(),
            forall|i: int|
                0 <= i < entries@.len() ==> idx@[i] == (ItemModel {
                    entry: entries@[i]@,
                    seen: false,
                    inserted: false,
                }),
            idx.wf(),
    {
        let mut items: Vec<IndexItem> = Vec::new();
        let n = entries.len();
        let mut k: usize = 0;
        while k < n
            invariant
                n == entries@.len(),
                k <= n,
                items@.len() == k,
                forall|i: int|
                    0 <= i < k ==> items@[i]@ == (ItemModel {
                        entry: entries@[i]@,
                        seen: false,
                        inserted: false,
                    }),
            decreases n - k,
        {
            items.push(IndexItem { entry: entries[k].clone(), seen: false, inserted: false });
            k += 1;
        }
        let idx = CatalogIndex { items };
        proof {
            assert(forall|i: int| 0 <= i < idx@.len() ==> idx@[i] == items@[i]@);
        }
        idx
    }

    /// Number of live entries.
    pub fn len(&self) -> (n: usize)
        ensures
            n == self@.len(),
    {
        self.items.len()
    }

    /// The item at position `i`.
    pub fn item_at(&self, i: usize) -> (it: &IndexItem)
        requires
            i < self@.len(),
        ensures
            it@ == self@[i as int],
    {
        &self.items[i]
    }

    /// The entry at position `i`.
    pub fn entry_at(&self, i: usize) -> (e: &CatalogEntry)
        requires
            i < self@.len(),
        ensures
            e@ == self@[i as int].entry,
    {
        &self.items[i].entry
    }

    /// Position of the live entry recording `path`, if any: the catalog's
    /// path lookup.
    pub fn lookup_by_path(&self, path: &String) -> (r: Option<usize>)
        ensures
            match r {
                Option::None => find_path(self@, path@) is None,
                Option::Some(i) => find_path(self@, path@) == Option::Some(i as int) && i
                    < self@.len(),
            },
    {
        let n = self.items.len();
        let mut i: usize = 0;
        while i < n
            invariant
                n == self@.len(),
                n == self.items@.len(),
                i <= n,
                forall|j: int| 0 <= j < i ==> self@[j].entry.path != path@,
            decreases n - i,
        {
            if self.items[i].entry.path == *path {
                proof {
                    lemma_find_path_props(self@, path@);
                    match find_path(self@, path@) {
                        Option::None => {
                            assert(self@[i as int].entry.path != path@);
                        },
                        Option::Some(k) => {
                            if k < i {
                                assert(self@[k].entry.path != path@);
                            }
                        },
                    }
                }
                return Option::Some(i);
            }
            i += 1;
        }
        proof {
            lemma_find_path_props(self@, path@);
            if find_path(self@, path@) is Some {
                let k = find_path(self@, path@)->Some_0;
                assert(self@[k].entry.path != path@);
            }
        }
        Option::None
    }

    /// Record that this pass has accounted for the entry at `i`.
    pub fn mark_seen(&mut self, i: usize)
        requires
            i < old(self)@.len(),
        ensures
            final(self)@ == old(self)@.update(
                i as int,
                ItemModel { seen: true, ..old(self)@[i as int] },
            ),
    {
        let it = &self.items[i];
        let replacement = IndexItem { entry: it.entry.clone(), seen: true, inserted: it.inserted };
        self.items.set(i, replacement);
        proof {
            assert(final(self)@ =~= old(self)@.update(
                i as int,
                ItemModel { seen: true, ..old(self)@[i as int] },
            ));
        }
    }

    /// Replace the item at `i`.
    pub(crate) fn set_item(&mut self, i: usize, item: IndexItem)
        requires
            i < old(self)@.len(),
        ensures
            final(self)@ == old(self)@.update(i as int, item@),
    {
        let ghost m = item@;
        self.items.set(i, item);
        proof {
            assert(final(self)@ =~= old(self)@.update(i as int, m));
        }
    }

    /// Append a new item.
    pub(crate) fn push_item(&mut self, item: IndexItem)
        ensures
            final(self)@ == old(self)@.push(item@),
    {
        let ghost m = item@;
        self.items.push(item);
        proof {
            assert(final(self)@ =~= old(self)@.push(m));
        }
    }

    /// Paths of the entries this pass never accounted for: the orphans the
    /// sweep must delete.
    pub fn entries_not_seen(&self) -> (r: Vec<String>)
        ensures
            r@.len() == orphan_paths(self@).len(),
            forall|k: int| 0 <= k < r@.len() ==> r@[k]@ == orphan_paths(self@)[k],
    {
        let n = self.items.len();
        let mut r: Vec<String> = Vec::new();
        let mut i: usize = 0;
        while i < n
            invariant
                n == self@.len(),
                n == self.items@.len(),
                i <= n,
                r@.len() == orphan_paths(self@.subrange(0, i as int)).len(),
                forall|k: int|
                    0 <= k < r@.len() ==> r@[k]@ == orphan_paths(self@.subrange(0, i as int))[k],
            decreases n - i,
        {
            proof {
                assert(self@.subrange(0, i + 1).drop_last() =~= self@.subrange(0, i as int));
                assert(self@.subrange(0, i + 1).last() == self@[i as int]);
            }
            if !self.items[i].seen {
                r.push(self.items[i].entry.path.clone());
            }
            i += 1;
        }
        proof {
            assert(self@.subrange(0, n as int) =~= self@);
        }
        r
    }
}

} // verus!
