//! Per-record metadata and its extraction from the attributes of one record.

use crate::ordered::insert_index;
use std::collections::BTreeSet;
use vstd::prelude::*;

verus! {

/// Namespace tag of a filename attribute.
#[derive(Clone, Copy, Debug)]
pub enum FileNamespace {
    Posix,
    Win32,
    Dos,
    Win32AndDos,
}

impl FileNamespace {
    /// Whether this is the generated 8.3 short-name namespace.
    pub fn is_legacy_short(&self) -> (r: bool)
        ensures
            r == (*self is Dos),
    {
        match self {
            FileNamespace::Dos => true,
            _ => false,
        }
    }
}

/// One naming attribute: a name under a parent directory.
#[derive(Clone, Debug)]
pub struct FileNameAttribute {
    pub parent: usize,
    pub namespace: FileNamespace,
    pub name: String,
}

/// Size fields of a data attribute.
#[derive(Clone, Copy, Debug)]
pub enum DataResidency {
    /// Payload stored inside the record.
    Resident { data_size: u32 },
    /// Payload stored in clusters of its own. The size fields are only
    /// meaningful on the attribute that starts at cluster number zero.
    NonResident { first_vcn: u64, file_size: u64, allocated_length: u64 },
}

/// What the index reads of one attribute of a record.
#[derive(Clone, Debug)]
pub enum RecordAttribute {
    FileName(FileNameAttribute),
    Data(DataResidency),
    Other,
}

/// What the index reads of one successfully decoded record.
#[derive(Clone, Debug)]
pub struct MftRecord {
    pub is_dir: bool,
    pub attributes: Vec<RecordAttribute>,
}

/// Summary of one record of the volume.
#[derive(Clone, Debug)]
pub struct FileMetadata {
    pub name: Option<String>,
    pub index: u64,
    pub parent_indices: BTreeSet<usize>,
    pub is_dir: bool,
    pub file_size: u64,
    pub allocated_size: u64,
    pub children_indices: BTreeSet<usize>,
    pub children_size: u64,
}

/// Mathematical value of a [`FileMetadata`].
pub struct FileMetadataView {
    pub name: Option<Seq<char>>,
    pub index: u64,
    pub parent_indices: Set<usize>,
    pub is_dir: bool,
    pub file_size: u64,
    pub allocated_size: u64,
    pub children_indices: Set<usize>,
    pub children_size: u64,
}

impl View for FileMetadata {
    type V = FileMetadataView;

    open spec fn view(&self) -> FileMetadataView {
        FileMetadataView {
            name: match self.name {
                Some(s) => Some(s@),
                None => None,
            },
            index: self.index,
            parent_indices: self.parent_indices@,
            is_dir: self.is_dir,
            file_size: self.file_size,
            allocated_size: self.allocated_size,
            children_indices: self.children_indices@,
            children_size: self.children_size,
        }
    }
}

/// A naming attribute outside the legacy short-name namespace.
pub open spec fn is_canonical_name(a: RecordAttribute) -> bool {
    a matches RecordAttribute::FileName(f) && !(f.namespace is Dos)
}

/// The attributes that contribute to a record's metadata.
pub open spec fn is_of_interest(a: RecordAttribute) -> bool {
    is_canonical_name(a) || a is Data
}

pub open spec fn has_interest(attrs: Seq<RecordAttribute>) -> bool {
    exists|k: int| 0 <= k < attrs.len() && is_of_interest(#[trigger] attrs[k])
}

/// The name of the last canonical naming attribute.
pub open spec fn display_name(attrs: Seq<RecordAttribute>) -> Option<Seq<char>>
    decreases attrs.len(),
{
    if attrs.len() == 0 {
        None
    } else {
        match attrs.last() {
            RecordAttribute::FileName(f) if !(f.namespace is Dos) => Some(f.name@),
            _ => display_name(attrs.drop_last()),
        }
    }
}

/// The parents named by canonical naming attributes.
pub open spec fn parent_set(attrs: Seq<RecordAttribute>) -> Set<usize> {
    Set::new(
        |p: usize|
            exists|k: int|
                0 <= k < attrs.len() && is_canonical_name(#[trigger] attrs[k])
                    && attrs[k]->FileName_0.parent == p,
    )
}

/// Whether the size fields of a data attribute can be used.
pub open spec fn sizes_usable(d: DataResidency) -> bool {
    match d {
        DataResidency::Resident { .. } => true,
        DataResidency::NonResident { first_vcn, .. } => first_vcn == 0,
    }
}

/// Logical and allocated size reported by one data attribute; zero for
/// both where its size fields cannot be used.
pub open spec fn sizes_of(d: DataResidency) -> (u64, u64) {
    match d {
        DataResidency::Resident { data_size } => (data_size as u64, data_size as u64),
        DataResidency::NonResident { first_vcn, file_size, allocated_length } => if first_vcn
            == 0 {
            (file_size, allocated_length)
        } else {
            (0, 0)
        },
    }
}

/// The sizes of the last data attribute, zero where there is none.
pub open spec fn data_sizes(attrs: Seq<RecordAttribute>) -> (u64, u64)
    decreases attrs.len(),
{
    if attrs.len() == 0 {
        (0, 0)
    } else {
        match attrs.last() {
            RecordAttribute::Data(d) => sizes_of(d),
            _ => data_sizes(attrs.drop_last()),
        }
    }
}

/// Whether some data attribute carries size fields that cannot be used.
pub open spec fn has_unusable_sizes(attrs: Seq<RecordAttribute>) -> bool {
    exists|k: int|
        0 <= k < attrs.len() && (#[trigger] attrs[k]) is Data && !sizes_usable(
            attrs[k]->Data_0,
        )
}

/// The metadata of record `index`, absent where the record carries no
/// attribute of interest.
pub open spec fn extracted(index: usize, record: MftRecord) -> Option<FileMetadataView> {
    if has_interest(record.attributes@) {
        Some(
            FileMetadataView {
                name: display_name(record.attributes@),
                index: index as u64,
                parent_indices: parent_set(record.attributes@),
                is_dir: record.is_dir,
                file_size: data_sizes(record.attributes@).0,
                allocated_size: data_sizes(record.attributes@).1,
                children_indices: Set::empty(),
                children_size: 0,
            },
        )
    } else {
        None
    }
}

/// View of an optional metadata slot.
pub open spec fn slot_view(slot: Option<FileMetadata>) -> Option<FileMetadataView> {
    match slot {
        Some(m) => Some(m@),
        None => None,
    }
}

/// Views of a sequence of optional metadata slots.
pub open spec fn slot_views(slots: Seq<Option<FileMetadata>>) -> Seq<Option<FileMetadataView>> {
    slots.map_values(|slot: Option<FileMetadata>| slot_view(slot))
}

impl DataResidency {
    /// Logical and allocated size as reported, or zero for both where the
    /// attribute does not start at cluster number zero.
    pub fn sizes(&self) -> (r: (u64, u64))
        ensures
            r == sizes_of(*self),
    {
        match self {
            DataResidency::Resident { data_size } => (*data_size as u64, *data_size as u64),
            DataResidency::NonResident { first_vcn, file_size, allocated_length } => {
                if *first_vcn == 0 {
                    (*file_size, *allocated_length)
                } else {
                    (0, 0)
                }
            },
        }
    }

    /// Whether the size fields can be used: always for a resident
    /// attribute, else only where it starts at cluster number zero.
    pub fn is_usable(&self) -> (r: bool)
        ensures
            r == sizes_usable(*self),
    {
        match self {
            DataResidency::Resident { .. } => true,
            DataResidency::NonResident { first_vcn, .. } => *first_vcn == 0,
        }
    }
}

impl MftRecord {
    /// Whether a data attribute of this record has size fields that were
    /// replaced by zero.
    pub fn has_unusable_sizes(&self) -> (r: bool)
        ensures
            r == has_unusable_sizes(self.attributes@),
    {
        let mut found = false;
        let mut k: usize = 0;
        while k < self.attributes.len()
            invariant
                k <= self.attributes.len(),
                found == has_unusable_sizes(self.attributes@.take(k as int)),
            decreases self.attributes.len() - k,
        {
            let ghost before = self.attributes@.take(k as int);
            let ghost after = self.attributes@.take(k + 1);
            let mut bad = false;
            match &self.attributes[k] {
                RecordAttribute::Data(d) => {
                    bad = !d.is_usable();
                },
                _ => {},
            }
            proof {
                assert(after[k as int] == self.attributes@[k as int]);
                if has_unusable_sizes(before) {
                    let w = choose|w: int|
                        0 <= w < before.len() && (#[trigger] before[w]) is Data && !sizes_usable(
                            before[w]->Data_0,
                        );
                    assert(after[w] == before[w]);
                }
                if has_unusable_sizes(after) && !bad {
                    let w = choose|w: int|
                        0 <= w < after.len() && (#[trigger] after[w]) is Data && !sizes_usable(
                            after[w]->Data_0,
                        );
                    assert(before[w] == after[w]);
                }
            }
            found = found || bad;
            k += 1;
        }
        proof {
            assert(self.attributes@.take(k as int) =~= self.attributes@);
        }
        found
    }
}

impl FileMetadata {
    /// Summarises record `index` from its attributes.
    ///
    /// Only naming attributes outside the legacy short-name namespace give
    /// the name and the parents; the last data attribute gives the sizes.
    /// A record without any such attribute has no metadata.
    pub fn from_record(index: usize, record: &MftRecord) -> (r: Option<FileMetadata>)
        ensures
            slot_view(r) == extracted(index, *record),
    {
        let mut name: Option<String> = None;
        let mut parent_indices: BTreeSet<usize> = BTreeSet::new();
        let mut file_size: u64 = 0;
        let mut allocated_size: u64 = 0;
        let mut seen = false;
        let mut k: usize = 0;
        let ghost attrs = record.attributes@;
        proof {
            assert(parent_set(attrs.take(0)) =~= Set::<usize>::empty());
        }
        while k < record.attributes.len()
            invariant
                attrs == record.attributes@,
                k <= attrs.len(),
                seen == has_interest(attrs.take(k as int)),
                (match name {
                    Some(s) => Some(s@),
                    None => None,
                }) == display_name(attrs.take(k as int)),
                parent_indices@ == parent_set(attrs.take(k as int)),
                (file_size, allocated_size) == data_sizes(attrs.take(k as int)),
            decreases attrs.len() - k,
        {
            let ghost before = attrs.take(k as int);
            let ghost after = attrs.take(k + 1);
            proof {
                assert(after.drop_last() =~= before);
                assert(after.last() == attrs[k as int]);
                assert forall|w: int| 0 <= w < before.len() implies before[w] == after[w] by {}
            }
            let mut hit = false;
            match &record.attributes[k] {
                RecordAttribute::FileName(f) => {
                    if !f.namespace.is_legacy_short() {
                        insert_index(&mut parent_indices, f.parent);
                        name = Some(f.name.clone());
                        hit = true;
                    }
                },
                RecordAttribute::Data(d) => {
                    let (logical, allocated) = d.sizes();
                    file_size = logical;
                    allocated_size = allocated;
                    hit = true;
                },
                RecordAttribute::Other => {},
            }
            seen = seen || hit;
            proof {
                assert(hit == is_of_interest(after[k as int]));
                if has_interest(before) {
                    let w = choose|w: int| 0 <= w < before.len() && is_of_interest(#[trigger] before[w]);
                    assert(is_of_interest(after[w]));
                }
                if has_interest(after) && !hit {
                    let w = choose|w: int| 0 <= w < after.len() && is_of_interest(#[trigger] after[w]);
                    assert(is_of_interest(before[w]));
                }
                assert(parent_indices@ =~= parent_set(after)) by {
                    assert forall|p: usize| parent_set(after).contains(p) implies parent_indices@.contains(
                        p,
                    ) by {
                        let w = choose|w: int|
                            0 <= w < after.len() && is_canonical_name(#[trigger] after[w])
                                && after[w]->FileName_0.parent == p;
                        if w < k {
                            assert(is_canonical_name(before[w]));
                            assert(parent_set(before).contains(p));
                        }
                    }
                    assert forall|p: usize| parent_indices@.contains(p) implies parent_set(after).contains(
                        p,
                    ) by {
                        if parent_set(before).contains(p) {
                            let w = choose|w: int|
                                0 <= w < before.len() && is_canonical_name(#[trigger] before[w])
                                    && before[w]->FileName_0.parent == p;
                            assert(is_canonical_name(after[w]));
                        } else {
                            assert(is_canonical_name(after[k as int]));
                        }
                    }
                }
            }
            k += 1;
        }
        proof {
            assert(attrs.take(k as int) =~= attrs);
        }
        if seen {
            Some(
                FileMetadata {
                    name,
                    index: index as u64,
                    parent_indices,
                    is_dir: record.is_dir,
                    file_size,
                    allocated_size,
                    children_indices: BTreeSet::new(),
                    children_size: 0,
                },
            )
        } else {
            None
        }
    }
}

} // verus!
