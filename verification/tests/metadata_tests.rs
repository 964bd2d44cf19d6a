use std::collections::BTreeSet;
use win_dedupe::DataResidency;
use win_dedupe::FileMetadata;
use win_dedupe::FileNameAttribute;
use win_dedupe::FileNamespace;
use win_dedupe::MftRecord;
use win_dedupe::RecordAttribute;

fn name_attr(parent: usize, namespace: FileNamespace, name: &str) -> RecordAttribute {
    RecordAttribute::FileName(FileNameAttribute { parent, namespace, name: String::from(name) })
}

fn set_of(items: &[usize]) -> BTreeSet<usize> {
    items.iter().copied().collect()
}

#[test]
fn record_without_attributes_has_no_metadata() {
    let record = MftRecord { is_dir: true, attributes: vec![] };
    assert!(FileMetadata::from_record(7, &record).is_none());
}

#[test]
fn record_with_only_other_attributes_has_no_metadata() {
    let record = MftRecord {
        is_dir: false,
        attributes: vec![RecordAttribute::Other, RecordAttribute::Other],
    };
    assert!(FileMetadata::from_record(30, &record).is_none());
}

#[test]
fn record_with_only_short_name_has_no_metadata() {
    let record = MftRecord {
        is_dir: false,
        attributes: vec![name_attr(5, FileNamespace::Dos, "PROGRA~1")],
    };
    assert!(FileMetadata::from_record(31, &record).is_none());
}

#[test]
fn canonical_name_gives_name_and_parent() {
    let record = MftRecord {
        is_dir: true,
        attributes: vec![name_attr(5, FileNamespace::Win32, "Program Files")],
    };
    let m = FileMetadata::from_record(40, &record).unwrap();
    assert_eq!(m.name, Some(String::from("Program Files")));
    assert_eq!(m.index, 40);
    assert_eq!(m.parent_indices, set_of(&[5]));
    assert!(m.is_dir);
    assert_eq!(m.file_size, 0);
    assert_eq!(m.allocated_size, 0);
    assert!(m.children_indices.is_empty());
    assert_eq!(m.children_size, 0);
}

#[test]
fn short_name_is_ignored_beside_long_name() {
    let record = MftRecord {
        is_dir: true,
        attributes: vec![
            name_attr(5, FileNamespace::Win32, "Program Files"),
            name_attr(9, FileNamespace::Dos, "PROGRA~1"),
        ],
    };
    let m = FileMetadata::from_record(40, &record).unwrap();
    assert_eq!(m.name, Some(String::from("Program Files")));
    assert_eq!(m.parent_indices, set_of(&[5]));
}

#[test]
fn every_canonical_namespace_contributes() {
    let record = MftRecord {
        is_dir: false,
        attributes: vec![
            name_attr(100, FileNamespace::Posix, "a"),
            name_attr(200, FileNamespace::Win32AndDos, "b"),
            name_attr(300, FileNamespace::Win32, "c"),
        ],
    };
    let m = FileMetadata::from_record(50, &record).unwrap();
    assert_eq!(m.name, Some(String::from("c")));
    assert_eq!(m.parent_indices, set_of(&[100, 200, 300]));
}

#[test]
fn hard_links_under_one_parent_collapse() {
    let record = MftRecord {
        is_dir: false,
        attributes: vec![
            name_attr(77, FileNamespace::Win32, "first"),
            name_attr(77, FileNamespace::Win32, "second"),
        ],
    };
    let m = FileMetadata::from_record(51, &record).unwrap();
    assert_eq!(m.name, Some(String::from("second")));
    assert_eq!(m.parent_indices.len(), 1);
    assert!(m.parent_indices.contains(&77));
}

#[test]
fn resident_data_gives_both_sizes() {
    let record = MftRecord {
        is_dir: false,
        attributes: vec![
            name_attr(5, FileNamespace::Win32, "small.txt"),
            RecordAttribute::Data(DataResidency::Resident { data_size: 321 }),
        ],
    };
    let m = FileMetadata::from_record(60, &record).unwrap();
    assert_eq!(m.file_size, 321);
    assert_eq!(m.allocated_size, 321);
    assert!(!record.has_unusable_sizes());
}

#[test]
fn non_resident_data_is_taken_as_reported() {
    let record = MftRecord {
        is_dir: false,
        attributes: vec![
            RecordAttribute::Data(
                DataResidency::NonResident {
                    first_vcn: 0,
                    file_size: 100_000,
                    allocated_length: 196_608,
                },
            ),
        ],
    };
    let m = FileMetadata::from_record(61, &record).unwrap();
    assert_eq!(m.name, None);
    assert_eq!(m.file_size, 100_000);
    assert_eq!(m.allocated_size, 196_608);
    assert!(m.parent_indices.is_empty());
    assert!(!record.has_unusable_sizes());
}

#[test]
fn non_resident_continuation_falls_back_to_zero() {
    let record = MftRecord {
        is_dir: false,
        attributes: vec![
            RecordAttribute::Data(
                DataResidency::NonResident { first_vcn: 16, file_size: 5, allocated_length: 4096 },
            ),
        ],
    };
    let m = FileMetadata::from_record(62, &record).unwrap();
    assert_eq!(m.file_size, 0);
    assert_eq!(m.allocated_size, 0);
    assert!(record.has_unusable_sizes());
}

#[test]
fn last_data_attribute_wins() {
    let record = MftRecord {
        is_dir: false,
        attributes: vec![
            RecordAttribute::Data(DataResidency::Resident { data_size: 10 }),
            RecordAttribute::Other,
            RecordAttribute::Data(
                DataResidency::NonResident { first_vcn: 0, file_size: 20, allocated_length: 4096 },
            ),
            name_attr(5, FileNamespace::Posix, "x"),
        ],
    };
    let m = FileMetadata::from_record(63, &record).unwrap();
    assert_eq!(m.file_size, 20);
    assert_eq!(m.allocated_size, 4096);
}

#[test]
fn data_residency_sizes() {
    assert_eq!(DataResidency::Resident { data_size: 7 }.sizes(), (7, 7));
    assert!(DataResidency::Resident { data_size: 7 }.is_usable());
    let whole = DataResidency::NonResident { first_vcn: 0, file_size: 1, allocated_length: 2 };
    assert_eq!(whole.sizes(), (1, 2));
    assert!(whole.is_usable());
    let part = DataResidency::NonResident { first_vcn: 1, file_size: 1, allocated_length: 2 };
    assert_eq!(part.sizes(), (0, 0));
    assert!(!part.is_usable());
}

#[test]
fn namespace_legacy_short() {
    assert!(FileNamespace::Dos.is_legacy_short());
    assert!(!FileNamespace::Posix.is_legacy_short());
    assert!(!FileNamespace::Win32.is_legacy_short());
    assert!(!FileNamespace::Win32AndDos.is_legacy_short());
}
