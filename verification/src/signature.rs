//! The filesystem signature in the first sector of a volume.

use vstd::prelude::*;

verus! {

/// Offset of the system identifier in the first sector.
pub const SYSTEM_ID_OFFSET: u64 = 3;

/// Length of the system identifier.
pub const SYSTEM_ID_LEN: usize = 8;

/// The system identifier of an NTFS volume: the letters NTFS and four
/// spaces.
pub open spec fn ntfs_system_id() -> Seq<u8> {
    seq![0x4eu8, 0x54u8, 0x46u8, 0x53u8, 0x20u8, 0x20u8, 0x20u8, 0x20u8]
}

/// Whether `id`, the bytes read at [`SYSTEM_ID_OFFSET`], are the system
/// identifier of an NTFS volume.
pub fn verify_ntfs_system_id(id: &[u8]) -> (r: bool)
    ensures
        r == (id@ == ntfs_system_id()),
{
    let expected: [u8; 8] = [0x4e, 0x54, 0x46, 0x53, 0x20, 0x20, 0x20, 0x20];
    if id.len() != SYSTEM_ID_LEN {
        return false;
    }
    let mut k: usize = 0;
    while k < SYSTEM_ID_LEN
        invariant
            k <= SYSTEM_ID_LEN,
            id@.len() == SYSTEM_ID_LEN,
            expected@ == ntfs_system_id(),
            forall|j: int| 0 <= j < k ==> id@[j] == expected@[j],
        decreases SYSTEM_ID_LEN - k,
    {
        if id[k] != expected[k] {
            return false;
        }
        k += 1;
    }
    assert(id@ =~= ntfs_system_id());
    true
}

} // verus!
