//! The index of past roots: which root the tree had at each size, and at
//! which size it had a given root.

use crate::primitives::H256;
use std::collections::HashMap;
use vstd::prelude::*;

verus! {

broadcast use vstd::std_specs::hash::group_hash_axioms;

/// What the index holds: two maps that are written together.
pub struct HistoryView {
    /// The root that was recorded for a leaf index.
    pub index_to_root: Map<u32, H256>,
    /// The leaf index that was recorded for a root.
    pub root_to_index: Map<H256, u32>,
}

impl HistoryView {
    /// The index that holds nothing.
    pub open spec fn empty() -> HistoryView {
        HistoryView { index_to_root: Map::empty(), root_to_index: Map::empty() }
    }

    /// The index after `root` was recorded for `index`.
    pub open spec fn record(self, index: u32, root: H256) -> HistoryView {
        HistoryView {
            index_to_root: self.index_to_root.insert(index, root),
            root_to_index: self.root_to_index.insert(root, index),
        }
    }

    /// The index after the entries for `index` and for `root` were removed.
    pub open spec fn remove(self, index: u32, root: H256) -> HistoryView {
        HistoryView {
            index_to_root: self.index_to_root.remove(index),
            root_to_index: self.root_to_index.remove(root),
        }
    }

    /// Whether `index` holds in `after` what it holds here: the same root,
    /// or none in both.
    pub open spec fn keeps_root(self, after: HistoryView, index: u32) -> bool {
        &&& after.index_to_root.contains_key(index) <==> self.index_to_root.contains_key(index)
        &&& self.index_to_root.contains_key(index) ==> after.index_to_root[index]
            == self.index_to_root[index]
    }

    /// Where a walk from `index` down to older entries comes to rest: the
    /// highest leaf index below `index` that holds no root or holds
    /// `anchor`, and -1 where there is none.
    pub open spec fn walk_floor(self, index: int, anchor: H256) -> int
        decreases index,
    {
        if index <= 0 {
            -1
        } else if !self.index_to_root.contains_key((index - 1) as u32)
            || self.index_to_root[(index - 1) as u32] == anchor {
            index - 1
        } else {
            self.walk_floor(index - 1, anchor)
        }
    }

    /// The index after the entries that lead from `root` at `index` back to
    /// `anchor` were removed. Nothing is removed where `root` is `anchor`.
    /// Otherwise the leaf indices from `index` down to, and without, the
    /// resting place of the walk lose their roots, and `root` and the roots
    /// of the leaf indices between lose their leaf indices.
    pub open spec fn pruned(self, index: u32, root: H256, anchor: H256) -> HistoryView {
        if root == anchor {
            self
        } else {
            let floor = self.walk_floor(index as int, anchor);
            HistoryView {
                index_to_root: self.index_to_root.remove_keys(self.walked(floor, index)),
                root_to_index: self.root_to_index.remove_keys(
                    self.roots_walked(floor, index, root),
                ),
            }
        }
    }

    /// The leaf indices above `floor` up to `index`.
    pub open spec fn walked(self, floor: int, index: u32) -> Set<u32> {
        Set::new(|j: u32| floor < j <= index)
    }

    /// `root`, unless `floor` is `index`, and the roots that the leaf
    /// indices strictly between `floor` and `index` hold.
    pub open spec fn roots_walked(self, floor: int, index: u32, root: H256) -> Set<H256> {
        Set::new(
            |r: H256|
                (floor < index && r == root) || exists|j: u32|
                    floor < j < index && #[trigger] self.index_to_root[j] == r,
        )
    }
}

/// The value of the last entry for `root` in `entries`.
spec fn newest(entries: Seq<(H256, u32)>, root: H256) -> Option<u32>
    decreases entries.len(),
{
    if entries.len() == 0 {
        None
    } else if entries.last().0 == root {
        Some(entries.last().1)
    } else {
        newest(entries.drop_last(), root)
    }
}

/// The bucket in which the entries for `root` are kept.
spec fn bucket_key(root: H256) -> u64 {
    (root.0[0] as u64) << 56 | (root.0[1] as u64) << 48 | (root.0[2] as u64) << 40 | (
    root.0[3] as u64) << 32 | (root.0[4] as u64) << 24 | (root.0[5] as u64) << 16 | (
    root.0[6] as u64) << 8 | (root.0[7] as u64)
}

fn bucket_of(root: &H256) -> (key: u64)
    ensures
        key == bucket_key(*root),
{
    (root.0[0] as u64) << 56 | (root.0[1] as u64) << 48 | (root.0[2] as u64) << 40 | (
    root.0[3] as u64) << 32 | (root.0[4] as u64) << 24 | (root.0[5] as u64) << 16 | (
    root.0[6] as u64) << 8 | (root.0[7] as u64)
}

/// The entries of bucket `key`.
spec fn entries_of(buckets: Map<u64, Vec<(H256, u32)>>, key: u64) -> Seq<(H256, u32)> {
    if buckets.contains_key(key) {
        buckets[key]@
    } else {
        Seq::empty()
    }
}

/// The map from root to index that `buckets` stand for.
spec fn roots_of(buckets: Map<u64, Vec<(H256, u32)>>) -> Map<H256, u32> {
    Map::new(
        |root: H256| newest(entries_of(buckets, bucket_key(root)), root).is_some(),
        |root: H256| newest(entries_of(buckets, bucket_key(root)), root).unwrap(),
    )
}

/// The value of the last entry for `root`.
fn find(entries: &Vec<(H256, u32)>, root: &H256) -> (found: Option<u32>)
    ensures
        found == newest(entries@, *root),
{
    let mut j: usize = entries.len();
    assert(entries@.take(j as int) =~= entries@);
    while j > 0
        invariant
            j <= entries@.len(),
            newest(entries@, *root) == newest(entries@.take(j as int), *root),
        decreases j,
    {
        assert(entries@.take(j as int).drop_last() =~= entries@.take(j - 1));
        j -= 1;
        if entries[j].0 == *root {
            return Some(entries[j].1);
        }
    }
    None
}

/// The entries without those for `root`.
fn without(entries: &Vec<(H256, u32)>, root: &H256) -> (kept: Vec<(H256, u32)>)
    ensures
        forall|r: H256|
            #[trigger] newest(kept@, r) == if r == *root {
                None
            } else {
                newest(entries@, r)
            },
{
    let mut kept: Vec<(H256, u32)> = Vec::new();
    let mut j: usize = 0;
    while j < entries.len()
        invariant
            j <= entries@.len(),
            forall|r: H256|
                #[trigger] newest(kept@, r) == if r == *root {
                    None
                } else {
                    newest(entries@.take(j as int), r)
                },
        decreases entries@.len() - j,
    {
        let ghost before = kept@;
        let entry = entries[j];
        assert(entries@.take(j + 1).drop_last() =~= entries@.take(j as int));
        if entry.0 != *root {
            kept.push(entry);
            assert(kept@.drop_last() =~= before);
        }
        assert forall|r: H256|
            #[trigger] newest(kept@, r) == if r == *root {
                None
            } else {
                newest(entries@.take(j + 1), r)
            } by {
            assert(newest(before, r) == if r == *root {
                None
            } else {
                newest(entries@.take(j as int), r)
            });
        }
        j += 1;
    }
    assert(entries@.take(j as int) =~= entries@);
    kept
}

/// The index of past roots.
pub struct RootHistory {
    /// The root that was recorded for each leaf index.
    index_to_root: HashMap<u32, H256>,
    /// The entries from root to leaf index, in buckets by the first bytes of
    /// the root; the last entry for a root is the one that counts.
    buckets: HashMap<u64, Vec<(H256, u32)>>,
}

impl View for RootHistory {
    type V = HistoryView;

    closed spec fn view(&self) -> HistoryView {
        HistoryView {
            index_to_root: self.index_to_root@,
            root_to_index: roots_of(self.buckets@),
        }
    }
}

impl RootHistory {
    /// An index that holds nothing.
    pub fn new() -> (history: RootHistory)
        ensures
            history@ == HistoryView::empty(),
    {
        let history = RootHistory { index_to_root: HashMap::new(), buckets: HashMap::new() };
        assert(history@.root_to_index =~= Map::empty());
        history
    }

    /// The root that was recorded for `index`.
    pub fn lookup_root(&self, index: u32) -> (root: Option<H256>)
        ensures
            root == if self@.index_to_root.contains_key(index) {
                Some(self@.index_to_root[index])
            } else {
                None
            },
    {
        match self.index_to_root.get(&index) {
            Some(root) => Some(*root),
            None => None,
        }
    }

    /// The leaf index that was recorded for `root`.
    pub fn lookup_index(&self, root: H256) -> (index: Option<u32>)
        ensures
            index == if self@.root_to_index.contains_key(root) {
                Some(self@.root_to_index[root])
            } else {
                None
            },
    {
        let key = bucket_of(&root);
        match self.buckets.get(&key) {
            Some(entries) => find(entries, &root),
            None => None,
        }
    }

    /// Records that the tree had `root` when `index` was its last leaf
    /// index. An earlier entry for `index` or for `root` is replaced.
    pub fn record(&mut self, index: u32, root: H256)
        ensures
            final(self)@ == old(self)@.record(index, root),
    {
        let key = bucket_of(&root);
        let ghost before = self.buckets@;
        let mut entries = match self.buckets.remove(&key) {
            Some(entries) => without(&entries, &root),
            None => Vec::new(),
        };
        let ghost kept = entries@;
        assert forall|r: H256| r != root implies #[trigger] newest(kept, r) == newest(
            entries_of(before, key),
            r,
        ) by {}
        entries.push((root, index));
        assert(entries@.drop_last() =~= kept);
        self.buckets.insert(key, entries);
        self.index_to_root.insert(index, root);
        proof {
            let after = self.buckets@;
            assert forall|r: H256|
                newest(#[trigger] entries_of(after, bucket_key(r)), r) == if r == root {
                    Some(index)
                } else {
                    newest(entries_of(before, bucket_key(r)), r)
                } by {
                if bucket_key(r) == key {
                    assert(entries_of(after, key) == entries@);
                    if r != root {
                        assert(newest(kept, r) == newest(entries_of(before, key), r));
                    }
                } else {
                    assert(entries_of(after, bucket_key(r)) == entries_of(before, bucket_key(r)));
                }
            }
            assert(roots_of(after) =~= roots_of(before).insert(root, index));
        }
    }

    /// Removes the entry for `index` and the entry for `root`.
    pub fn remove(&mut self, index: u32, root: H256)
        ensures
            final(self)@ == old(self)@.remove(index, root),
    {
        let key = bucket_of(&root);
        let ghost before = self.buckets@;
        match self.buckets.remove(&key) {
            Some(entries) => {
                let kept = without(&entries, &root);
                if kept.len() > 0 {
                    self.buckets.insert(key, kept);
                }
                assert(forall|r: H256| #[trigger]
                    newest(entries_of(self.buckets@, key), r) == newest(kept@, r));
            },
            None => {},
        }
        self.index_to_root.remove(&index);
        proof {
            let after = self.buckets@;
            assert forall|r: H256|
                newest(#[trigger] entries_of(after, bucket_key(r)), r) == if r == root {
                    None
                } else {
                    newest(entries_of(before, bucket_key(r)), r)
                } by {
                if bucket_key(r) == key {
                } else {
                    assert(entries_of(after, bucket_key(r)) == entries_of(before, bucket_key(r)));
                }
            }
            assert(roots_of(after) =~= roots_of(before).remove(root));
        }
    }

    /// Walks from `root` at `index` back through older entries and removes
    /// each, until it meets `anchor`, has removed leaf index 0, or finds a
    /// leaf index without a root.
    pub fn prune(&mut self, index: u32, root: H256, anchor: H256)
        ensures
            final(self)@ == old(self)@.pruned(index, root, anchor),
    {
        let ghost start = self@;
        let ghost floor = start.walk_floor(index as int, anchor);
        let mut at: u32 = index;
        let mut current = root;
        let mut walking = current != anchor;
        while walking
            invariant
                start == old(self)@,
                floor == start.walk_floor(index as int, anchor),
                at <= index,
                !walking ==> self@ == start.pruned(index, root, anchor),
                walking ==> {
                    &&& current != anchor
                    &&& root != anchor
                    &&& floor == start.walk_floor(at as int, anchor)
                    &&& at == index ==> current == root
                    &&& at < index ==> start.index_to_root.contains_key(at)
                        && start.index_to_root[at] == current
                    &&& self@.index_to_root == start.index_to_root.remove_keys(
                        start.walked(at as int, index),
                    )
                    &&& self@.root_to_index == start.root_to_index.remove_keys(
                        start.roots_walked(at as int, index, root),
                    )
                },
            decreases at + if walking { 1int } else { 0int },
        {
            let ghost before = self@;
            self.remove(at, current);
            proof {
                assert(self@.index_to_root =~= start.index_to_root.remove_keys(
                    start.walked(at - 1, index),
                ));
                assert forall|r: H256|
                    start.roots_walked(at - 1, index, root).contains(r) <==> (start.roots_walked(
                        at as int,
                        index,
                        root,
                    ).contains(r) || r == current) by {
                    if at < index && r == current {
                        assert(start.index_to_root[at] == r);
                    }
                }
                assert(self@.root_to_index =~= start.root_to_index.remove_keys(
                    start.roots_walked(at - 1, index, root),
                ));
            }
            if at == 0 {
                walking = false;
            } else {
                at -= 1;
                match self.lookup_root(at) {
                    Some(next) => {
                        current = next;
                        walking = next != anchor;
                    },
                    None => {
                        walking = false;
                    },
                }
            }
        }
    }
}

} // verus!
