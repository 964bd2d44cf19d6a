//! The flat index: one optional metadata slot per record, filled in a
//! single pass over the records in catalogue order.

use crate::metadata::extracted;
use crate::metadata::has_unusable_sizes;
use crate::metadata::slot_view;
use crate::metadata::slot_views;
use crate::metadata::FileMetadata;
use crate::metadata::FileMetadataView;
use crate::metadata::MftRecord;
use std::sync::atomic::AtomicUsize;
use std::sync::atomic::Ordering;
use std::sync::Arc;
use vstd::prelude::*;

verus! {

/// Per-record metadata by record index, before parents and children are
/// linked.
pub struct VolumeIndexFlatArray(pub Vec<Option<FileMetadata>>);

impl View for VolumeIndexFlatArray {
    type V = Seq<Option<FileMetadataView>>;

    open spec fn view(&self) -> Seq<Option<FileMetadataView>> {
        slot_views(self.0@)
    }
}

/// Every populated slot carries its own position as its record index.
pub open spec fn indices_match(slots: Seq<Option<FileMetadataView>>) -> bool {
    forall|i: int|
        0 <= i < slots.len() ==> ((#[trigger] slots[i]) matches Some(m) ==> m.index == i)
}

/// What one scanned record leaves in slot `index`: nothing where the
/// record could not be decoded.
pub open spec fn scanned_slot(index: usize, record: Option<MftRecord>) -> Option<
    FileMetadataView,
> {
    match record {
        Some(r) => extracted(index, r),
        None => None,
    }
}

/// The flat index of a whole catalogue.
pub open spec fn scanned(records: Seq<Option<MftRecord>>) -> Seq<Option<FileMetadataView>> {
    Seq::new(records.len(), |i: int| scanned_slot(i as usize, records[i]))
}

/// Number of records between two progress reports: a hundredth of the
/// catalogue, and one for catalogues of fewer than a hundred records.
pub open spec fn progress_step(entry_count: usize) -> int {
    if entry_count / 100 == 0 {
        1
    } else {
        entry_count as int / 100
    }
}

/// Whether a progress report is due when record `index` has been handled.
pub open spec fn progress_due(index: usize, entry_count: usize) -> bool {
    index as int % progress_step(entry_count) == 0
}

/// Identity: every populated slot of a scanned catalogue carries its own
/// position as its record index.
pub proof fn lemma_scanned_indices_match(records: Seq<Option<MftRecord>>)
    requires
        records.len() <= usize::MAX,
    ensures
        indices_match(scanned(records)),
        scanned(records).len() == records.len(),
{
}

/// Progress: once every record of a catalogue has been handled, the value
/// published last lies at most one step below the number of records.
pub proof fn lemma_progress_reaches_end(builder: FlatIndexBuilder)
    requires
        builder.wf(),
        builder.capacity() > 0,
        builder.position() == builder.capacity(),
    ensures
        builder.reported() < builder.capacity(),
        builder.capacity() - builder.reported() <= progress_step(builder.capacity() as usize),
        progress_due(builder.reported(), builder.capacity() as usize),
{
}

/// Incremental construction of a [`VolumeIndexFlatArray`], one record at a
/// time, with the progress value to publish after each record.
pub struct FlatIndexBuilder {
    slots: Vec<Option<FileMetadata>>,
    next: usize,
    reported: usize,
    size_warnings: usize,
}

impl FlatIndexBuilder {
    /// The slots as they stand.
    pub closed spec fn slots(&self) -> Seq<Option<FileMetadataView>> {
        slot_views(self.slots@)
    }

    /// Number of records handled so far; also the index of the next one.
    pub closed spec fn position(&self) -> usize {
        self.next
    }

    /// The progress value published last, zero before the first.
    pub closed spec fn reported(&self) -> usize {
        self.reported
    }

    /// Number of handled records with unusable size fields.
    pub closed spec fn size_warnings(&self) -> usize {
        self.size_warnings
    }

    pub open spec fn capacity(&self) -> nat {
        self.slots().len()
    }

    pub open spec fn wf(&self) -> bool {
        &&& self.position() <= self.capacity()
        &&& self.size_warnings() <= self.position()
        &&& forall|i: int|
            self.position() <= i < self.capacity() ==> (#[trigger] self.slots()[i]) is None
        &&& indices_match(self.slots())
        &&& self.reported() as int % progress_step(self.capacity() as usize) == 0
        &&& self.position() == 0 ==> self.reported() == 0
        &&& self.position() > 0 ==> self.reported() < self.position() && self.position()
            - self.reported() <= progress_step(self.capacity() as usize)
    }

    /// A builder for a catalogue of `entry_count` records, all slots empty.
    pub fn new(entry_count: usize) -> (b: FlatIndexBuilder)
        ensures
            b.wf(),
            b.capacity() == entry_count,
            b.position() == 0,
            b.reported() == 0,
            b.size_warnings() == 0,
            forall|i: int| 0 <= i < entry_count ==> (#[trigger] b.slots()[i]) is None,
    {
        let mut slots: Vec<Option<FileMetadata>> = Vec::new();
        let mut i: usize = 0;
        while i < entry_count
            invariant
                i <= entry_count,
                slots@.len() == i,
                forall|j: int| 0 <= j < i ==> (#[trigger] slots@[j]) is None,
            decreases entry_count - i,
        {
            slots.push(None);
            i += 1;
        }
        let b = FlatIndexBuilder { slots, next: 0, reported: 0, size_warnings: 0 };
        proof {
            let ghost step = progress_step(entry_count);
            assert(0int % step == 0) by (nonlinear_arith)
                requires
                    step > 0,
            ;
            assert forall|i: int| 0 <= i < b.capacity() implies (#[trigger] b.slots()[i]) is None by {
                assert(b.slots@[i] is None);
            }
        }
        b
    }

    pub fn entry_count(&self) -> (n: usize)
        ensures
            n == self.capacity(),
    {
        self.slots.len()
    }

    pub fn records_seen(&self) -> (n: usize)
        ensures
            n == self.position(),
    {
        self.next
    }

    pub fn last_progress(&self) -> (p: usize)
        ensures
            p == self.reported(),
    {
        self.reported
    }

    pub fn unusable_size_count(&self) -> (n: usize)
        ensures
            n == self.size_warnings(),
    {
        self.size_warnings
    }

    /// Whether every slot has had its record.
    pub fn is_complete(&self) -> (r: bool)
        ensures
            r == (self.position() >= self.capacity()),
    {
        self.next >= self.slots.len()
    }

    /// Handles the next record of the catalogue: `None` stands for a record
    /// that could not be decoded and leaves its slot empty. Returns the
    /// progress value to publish, if one is due.
    pub fn push(&mut self, record: Option<&MftRecord>) -> (progress: Option<usize>)
        requires
            old(self).wf(),
            old(self).position() < old(self).capacity(),
        ensures
            final(self).wf(),
            final(self).capacity() == old(self).capacity(),
            final(self).position() == old(self).position() + 1,
            final(self).slots() == old(self).slots().update(
                old(self).position() as int,
                match record {
                    Some(r) => extracted(old(self).position(), *r),
                    None => None,
                },
            ),
            progress == if progress_due(old(self).position(), old(self).capacity() as usize) {
                Some(old(self).position())
            } else {
                None
            },
            final(self).reported() >= old(self).reported(),
            progress matches Some(p) ==> final(self).reported() == p,
            progress is None ==> final(self).reported() == old(self).reported(),
            final(self).size_warnings() == old(self).size_warnings() + if record matches Some(r)
                && has_unusable_sizes(r.attributes@) {
                1int
            } else {
                0int
            },
    {
        let index = self.next;
        let entry_count = self.slots.len();
        let mut slot: Option<FileMetadata> = None;
        if let Some(r) = record {
            slot = FileMetadata::from_record(index, r);
            if r.has_unusable_sizes() {
                self.size_warnings = self.size_warnings + 1;
            }
        }
        let ghost before = self.slots();
        self.slots.set(index, slot);
        self.next = index + 1;
        let step = if entry_count / 100 == 0 {
            1
        } else {
            entry_count / 100
        };
        proof {
            assert(self.slots() =~= before.update(index as int, slot_view(slot)));
            assert(step == progress_step(entry_count));
        }
        if index % step == 0 {
            self.reported = index;
            Some(index)
        } else {
            proof {
                let ghost r = old(self).reported() as int;
                let ghost s = step as int;
                assert(index as int - r < s) by {
                    if index as int - r >= s {
                        assert(index as int - r == s);
                        assert((r + s) % s == 0) by (nonlinear_arith)
                            requires
                                r % s == 0,
                                s > 0,
                        ;
                    }
                }
            }
            None
        }
    }

    /// The finished index, once every record of the catalogue has been
    /// handled.
    pub fn finish(self) -> (flat: VolumeIndexFlatArray)
        requires
            self.wf(),
            self.position() == self.capacity(),
        ensures
            flat@ == self.slots(),
            indices_match(flat@),
    {
        VolumeIndexFlatArray(self.slots)
    }
}

impl VolumeIndexFlatArray {
    /// Builds the flat index from the records of a catalogue in order,
    /// `None` standing for a record that could not be decoded. Publishes
    /// progress to `progress_counter` about once per hundredth of the
    /// catalogue.
    pub fn from_mft_reader(
        records: &Vec<Option<MftRecord>>,
        progress_counter: Option<Arc<AtomicUsize>>,
    ) -> (flat: VolumeIndexFlatArray)
        ensures
            flat@ == scanned(records@),
            indices_match(flat@),
    {
        let mut builder = FlatIndexBuilder::new(records.len());
        let mut i: usize = 0;
        while i < records.len()
            invariant
                builder.wf(),
                builder.capacity() == records@.len(),
                builder.position() == i,
                i <= records@.len(),
                forall|j: int| 0 <= j < i ==> builder.slots()[j] == scanned(records@)[j],
            decreases records@.len() - i,
        {
            let progress = builder.push(records[i].as_ref());
            if let Some(p) = progress {
                if let Some(counter) = &progress_counter {
                    counter.store(p, Ordering::Relaxed);
                }
            }
            i += 1;
        }
        let flat = builder.finish();
        proof {
            assert(flat@ =~= scanned(records@));
        }
        flat
    }
}

} // verus!
