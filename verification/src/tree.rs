//! The directory tree: children linked to their parent directories, and
//! directory listings.

use crate::flat::indices_match;
use crate::flat::VolumeIndexFlatArray;
use crate::metadata::slot_view;
use crate::metadata::slot_views;
use crate::metadata::FileMetadata;
use crate::metadata::FileMetadataView;
use crate::ordered::insert_index;
use crate::ordered::ordered_members;
use crate::ordered::strictly_ascending;
use vstd::prelude::*;

verus! {

/// Records up to this index are the volume's own bookkeeping and are never
/// listed.
pub const LAST_RESERVED_RECORD: usize = 24;

/// Largest number of parent references one record can hold, plus one.
pub const REFERENCES_PER_RECORD: u128 = 0x1_0000_0000_0000_0000;

/// Per-record metadata by record index, with the children of every
/// directory filled in.
pub struct VolumeIndexTree(pub Vec<Option<FileMetadata>>);

impl View for VolumeIndexTree {
    type V = Seq<Option<FileMetadataView>>;

    open spec fn view(&self) -> Seq<Option<FileMetadataView>> {
        slot_views(self.0@)
    }
}

/// Record `child` is populated and names `parent` as a parent.
pub open spec fn links_to(flat: Seq<Option<FileMetadataView>>, child: usize, parent: usize) -> bool {
    child < flat.len() && (flat[child as int] matches Some(m) && m.parent_indices.contains(parent))
}

/// Slot `p` exists, is populated and is a directory.
pub open spec fn is_directory_slot(flat: Seq<Option<FileMetadataView>>, p: usize) -> bool {
    p < flat.len() && (flat[p as int] matches Some(m) && m.is_dir)
}

/// The records that name `p` as a parent.
pub open spec fn linked_children(flat: Seq<Option<FileMetadataView>>, p: usize) -> Set<usize> {
    Set::new(|c: usize| links_to(flat, c, p))
}

/// Slot `p` of the tree: the flat slot, with the records that name it
/// added to its children where it is a directory.
pub open spec fn tree_slot(flat: Seq<Option<FileMetadataView>>, p: int) -> Option<
    FileMetadataView,
> {
    match flat[p] {
        None => None,
        Some(m) => Some(
            FileMetadataView {
                children_indices: if m.is_dir {
                    m.children_indices.union(linked_children(flat, p as usize))
                } else {
                    m.children_indices
                },
                ..m
            },
        ),
    }
}

/// The tree built from a flat index.
pub open spec fn tree_of(flat: Seq<Option<FileMetadataView>>) -> Seq<Option<FileMetadataView>> {
    Seq::new(flat.len(), |p: int| tree_slot(flat, p))
}

/// The parent references that cannot be followed: the parent slot is
/// missing, empty or not a directory. Each is a (child, parent) pair.
pub open spec fn dropped_edges(flat: Seq<Option<FileMetadataView>>) -> Set<(usize, usize)> {
    Set::new(|e: (usize, usize)| links_to(flat, e.0, e.1) && !is_directory_slot(flat, e.1))
}

/// Edge completeness: in the tree, every populated record is among the
/// children of each directory it names as a parent.
pub proof fn lemma_edge_completeness(
    flat: Seq<Option<FileMetadataView>>,
    child: usize,
    parent: usize,
)
    requires
        links_to(flat, child, parent),
        is_directory_slot(flat, parent),
    ensures
        tree_of(flat)[parent as int] matches Some(m) && m.children_indices.contains(child),
{
    assert(linked_children(flat, parent).contains(child));
}

/// Linking changes nothing but the children of directories: the tree has
/// the slots of the flat index, populated where it was, and every record
/// keeps its name, index, parents, kind and sizes.
pub proof fn lemma_tree_keeps_records(flat: Seq<Option<FileMetadataView>>, i: int)
    requires
        0 <= i < flat.len(),
    ensures
        tree_of(flat).len() == flat.len(),
        tree_of(flat)[i] is Some == flat[i] is Some,
        flat[i] matches Some(m) ==> tree_of(flat)[i] == Some(
            FileMetadataView { children_indices: tree_of(flat)[i]->0.children_indices, ..m },
        ),
        flat[i] matches Some(m) ==> m.children_indices.subset_of(
            tree_of(flat)[i]->0.children_indices,
        ),
        flat[i] matches Some(m) ==> !m.is_dir ==> tree_of(flat)[i]->0.children_indices
            == m.children_indices,
{
}

/// Identity: where every populated slot of the flat index carries its own
/// position as its record index, so does every slot of the tree.
pub proof fn lemma_tree_keeps_identity(flat: Seq<Option<FileMetadataView>>)
    requires
        indices_match(flat),
    ensures
        indices_match(tree_of(flat)),
{
    assert forall|i: int| 0 <= i < tree_of(flat).len() implies (
    (#[trigger] tree_of(flat)[i]) matches Some(m) ==> m.index == i) by {
        lemma_tree_keeps_records(flat, i);
    }
}

/// A listing never holds a reserved record.
pub proof fn lemma_listing_excludes_reserved(
    tree: Seq<Option<FileMetadataView>>,
    inode: usize,
    child: usize,
)
    requires
        listing(tree, inode) matches Some(s) && s.contains(child),
    ensures
        child > LAST_RESERVED_RECORD,
{
}

/// The edge from `child` to `parent` has been handled once all records
/// before `upto` and the parents in `done` of record `upto` have been.
pub open spec fn handled(child: usize, parent: usize, upto: usize, done: Seq<usize>) -> bool {
    child < upto || (child == upto && done.contains(parent))
}

/// Slot `q` while the tree is being linked: populated as in the flat
/// index, unchanged but for its children, which are those of the flat slot
/// and, for a directory, the handled records that name it.
pub open spec fn slot_linked(
    slot: Option<FileMetadataView>,
    flat: Seq<Option<FileMetadataView>>,
    q: int,
    upto: usize,
    done: Seq<usize>,
) -> bool {
    match (slot, flat[q]) {
        (None, None) => true,
        (Some(c), Some(m)) => {
            &&& c == FileMetadataView { children_indices: c.children_indices, ..m }
            &&& forall|ch: usize|
                c.children_indices.contains(ch) <==> (m.children_indices.contains(ch) || (m.is_dir
                    && links_to(flat, ch, q as usize) && handled(ch, q as usize, upto, done)))
        },
        _ => false,
    }
}

/// State of the slots while the tree is being linked.
pub open spec fn linked_upto(
    cur: Seq<Option<FileMetadataView>>,
    flat: Seq<Option<FileMetadataView>>,
    upto: usize,
    done: Seq<usize>,
) -> bool {
    &&& cur.len() == flat.len()
    &&& forall|q: int| 0 <= q < flat.len() ==> slot_linked(#[trigger] cur[q], flat, q, upto, done)
}

/// State of the dropped edges while the tree is being linked.
pub open spec fn dropped_upto(
    seen: Set<(usize, usize)>,
    flat: Seq<Option<FileMetadataView>>,
    upto: usize,
    done: Seq<usize>,
) -> bool {
    forall|e: (usize, usize)|
        seen.contains(e) <==> (dropped_edges(flat).contains(e) && handled(e.0, e.1, upto, done))
}

impl VolumeIndexFlatArray {
    /// Links every populated record into the children of each directory it
    /// names as a parent. A reference to a slot that is missing, empty or
    /// not a directory is dropped and counted; the count is returned beside
    /// the tree.
    pub fn build_tree(self) -> (out: (VolumeIndexTree, u128))
        ensures
            out.0@ == tree_of(self@),
            dropped_edges(self@).finite(),
            out.1 == dropped_edges(self@).len(),
    {
        let ghost flat = self@;
        let mut entries = self.0;
        let n = entries.len();
        let mut dropped: u128 = 0;
        let ghost mut seen: Set<(usize, usize)> = Set::empty();
        let mut i: usize = 0;
        while i < n
            invariant
                n == flat.len(),
                entries@.len() == n,
                i <= n,
                linked_upto(slot_views(entries@), flat, i, Seq::empty()),
                dropped_upto(seen, flat, i, Seq::empty()),
                seen.finite(),
                dropped == seen.len(),
                dropped <= i * REFERENCES_PER_RECORD,
            decreases n - i,
        {
            let parents: Vec<usize> = match &entries[i] {
                Some(m) => ordered_members(&m.parent_indices),
                None => Vec::new(),
            };
            proof {
                let ghost cur = slot_views(entries@);
                assert(cur[i as int] == slot_view(entries@[i as int]));
                assert(flat[i as int] matches Some(m) ==> parents@.to_set() == m.parent_indices);
            }
            let mut k: usize = 0;
            while k < parents.len()
                invariant
                    n == flat.len(),
                    entries@.len() == n,
                    i < n,
                    k <= parents@.len(),
                    parents@.no_duplicates(),
                    flat[i as int] is None ==> parents@.len() == 0,
                    flat[i as int] matches Some(m) ==> parents@.to_set() == m.parent_indices,
                    linked_upto(
                        slot_views(entries@),
                        flat,
                        i,
                        parents@.take(k as int),
                    ),
                    dropped_upto(seen, flat, i, parents@.take(k as int)),
                    seen.finite(),
                    dropped == seen.len(),
                    dropped <= i * REFERENCES_PER_RECORD + k,
                decreases parents@.len() - k,
            {
                let p = parents[k];
                let ghost cur = slot_views(entries@);
                let ghost done = parents@.take(k as int);
                let ghost done_next = parents@.take(k + 1);
                proof {
                    assert(done_next =~= done.push(p));
                    assert(!done.contains(p));
                    assert(parents@.contains(p));
                    assert(parents@.to_set().contains(p));
                    assert(links_to(flat, i, p));
                    if p < n {
                        assert(cur[p as int] == slot_view(entries@[p as int]));
                        assert(is_directory_slot(flat, p) == (entries@[p as int] matches Some(e)
                            && e.is_dir));
                    }
                    assert forall|x: usize| done_next.contains(x) <==> (done.contains(x) || x == p) by {
                        if done.contains(x) {
                            let w = choose|w: int| 0 <= w < done.len() && done[w] == x;
                            assert(done_next[w] == x);
                        }
                        if x == p {
                            assert(done_next[k as int] == x);
                        }
                    }
                }
                let mut linked = false;
                if p < n {
                    match &mut entries[p] {
                        Some(parent) => {
                            if parent.is_dir {
                                insert_index(&mut parent.children_indices, i);
                                linked = true;
                            }
                        },
                        None => {},
                    }
                }
                if !linked {
                    dropped = dropped + 1;
                    proof {
                        assert(!seen.contains((i, p)));
                        seen = seen.insert((i, p));
                    }
                }
                proof {
                    let ghost now = slot_views(entries@);
                    assert(linked == is_directory_slot(flat, p));
                    assert forall|q: int| 0 <= q < flat.len() implies slot_linked(
                        #[trigger] now[q],
                        flat,
                        q,
                        i,
                        done_next,
                    ) by {
                        assert(slot_linked(cur[q], flat, q, i, done));
                    }
                }
                k += 1;
            }
            proof {
                assert(parents@.take(k as int) =~= parents@);
                assert forall|c: usize, q: usize| links_to(flat, c, q) implies (handled(
                    c,
                    q,
                    i,
                    parents@,
                ) <==> handled(c, q, (i + 1) as usize, Seq::empty())) by {
                    if c == i {
                        assert(parents@.to_set().contains(q));
                    }
                }
                assert(parents@.len() < REFERENCES_PER_RECORD);
            }
            i += 1;
        }
        proof {
            let ghost now = slot_views(entries@);
            assert(seen =~= dropped_edges(flat));
            assert forall|q: int| 0 <= q < flat.len() implies now[q] == tree_slot(flat, q) by {
                match (now[q], flat[q]) {
                    (Some(c), Some(m)) => {
                        let ghost want = if m.is_dir {
                            m.children_indices.union(linked_children(flat, q as usize))
                        } else {
                            m.children_indices
                        };
                        assert(c.children_indices =~= want);
                    },
                    _ => {},
                }
            }
            assert(now =~= tree_of(flat));
        }
        (VolumeIndexTree(entries), dropped)
    }
}

/// What a listing of `inode` holds: the children of a directory beyond the
/// reserved records, nothing for a populated record that is no directory;
/// no listing at all where the slot is missing or empty.
pub open spec fn listing(tree: Seq<Option<FileMetadataView>>, inode: usize) -> Option<Set<usize>> {
    if inode < tree.len() && tree[inode as int] is Some {
        let m = tree[inode as int]->0;
        if m.is_dir {
            Some(m.children_indices.filter(|c: usize| c > LAST_RESERVED_RECORD))
        } else {
            Some(Set::empty())
        }
    } else {
        None
    }
}

impl VolumeIndexTree {
    /// The children of `inode` in ascending order, without the reserved
    /// records. `None` where the slot is missing or empty.
    pub fn dir_children(&self, inode: usize) -> (r: Option<Vec<usize>>)
        ensures
            r is Some == listing(self@, inode) is Some,
            r matches Some(v) ==> {
                &&& strictly_ascending(v@)
                &&& v@.no_duplicates()
                &&& v@.to_set() == listing(self@, inode)->0
                &&& forall|k: int| 0 <= k < v@.len() ==> v@[k] > LAST_RESERVED_RECORD
            },
    {
        if inode >= self.0.len() {
            return None;
        }
        match &self.0[inode] {
            None => None,
            Some(m) => {
                let mut out: Vec<usize> = Vec::new();
                if !m.is_dir {
                    assert(out@.to_set() =~= Set::<usize>::empty());
                    return Some(out);
                }
                let members = ordered_members(&m.children_indices);
                let mut k: usize = 0;
                while k < members.len()
                    invariant
                        k <= members@.len(),
                        strictly_ascending(members@),
                        strictly_ascending(out@),
                        forall|a: int, j: int|
                            0 <= a < out@.len() && k <= j < members@.len() ==> out@[a] < members@[j],
                        forall|a: int| 0 <= a < out@.len() ==> out@[a] > LAST_RESERVED_RECORD,
                        forall|x: usize|
                            out@.contains(x) <==> (members@.take(k as int).contains(x) && x
                                > LAST_RESERVED_RECORD),
                    decreases members@.len() - k,
                {
                    let c = members[k];
                    let ghost before = members@.take(k as int);
                    let ghost after = members@.take(k + 1);
                    let ghost out_before = out@;
                    proof {
                        assert(after =~= before.push(c));
                    }
                    if c > LAST_RESERVED_RECORD {
                        out.push(c);
                    }
                    proof {
                        assert forall|x: usize|
                            out@.contains(x) <==> (after.contains(x) && x > LAST_RESERVED_RECORD)
                        by {
                            if out@.contains(x) {
                                let w = choose|w: int| 0 <= w < out@.len() && out@[w] == x;
                                if w < out_before.len() {
                                    assert(out_before.contains(x));
                                    let u = choose|u: int| 0 <= u < before.len() && before[u] == x;
                                    assert(after[u] == x);
                                } else {
                                    assert(after[k as int] == x);
                                }
                            }
                            if after.contains(x) && x > LAST_RESERVED_RECORD {
                                let u = choose|u: int| 0 <= u < after.len() && after[u] == x;
                                if u < k {
                                    assert(before[u] == x);
                                    assert(out_before.contains(x));
                                    let w = choose|w: int|
                                        0 <= w < out_before.len() && out_before[w] == x;
                                    assert(out@[w] == x);
                                } else {
                                    assert(out@[out@.len() - 1] == x);
                                }
                            }
                        }
                    }
                    k += 1;
                }
                proof {
                    assert(members@.take(k as int) =~= members@);
                    assert(out@.to_set() =~= listing(self@, inode)->0) by {
                        assert forall|x: usize| members@.contains(x) <==> members@.to_set().contains(x) by {}
                    }
                }
                Some(out)
            },
        }
    }
}

} // verus!
