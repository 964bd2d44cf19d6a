use std::collections::BTreeSet;
use win_dedupe::ordered::insert_index;
use win_dedupe::ordered::ordered_members;
use win_dedupe::DataResidency;
use win_dedupe::FileNameAttribute;
use win_dedupe::FileNamespace;
use win_dedupe::MftRecord;
use win_dedupe::RecordAttribute;
use win_dedupe::VolumeIndexFlatArray;

fn name(parent: usize, namespace: FileNamespace, text: &str) -> RecordAttribute {
    RecordAttribute::FileName(FileNameAttribute { parent, namespace, name: String::from(text) })
}

fn catalogue() -> Vec<Option<MftRecord>> {
    let mut records: Vec<Option<MftRecord>> = Vec::new();
    for i in 0..40usize {
        let record = match i {
            5 => MftRecord { is_dir: true, attributes: vec![name(5, FileNamespace::Win32AndDos, ".")] },
            11 => MftRecord {
                is_dir: true,
                attributes: vec![name(5, FileNamespace::Win32, "$Extend")],
            },
            12..=23 => MftRecord { is_dir: false, attributes: vec![] },
            30 => MftRecord {
                is_dir: true,
                attributes: vec![
                    name(5, FileNamespace::Win32, "Documents and Settings"),
                    name(5, FileNamespace::Dos, "DOCUME~1"),
                ],
            },
            31 => MftRecord {
                is_dir: false,
                attributes: vec![
                    name(30, FileNamespace::Win32, "notes.txt"),
                    name(5, FileNamespace::Win32, "notes link.txt"),
                    RecordAttribute::Data(DataResidency::Resident { data_size: 120 }),
                ],
            },
            32 => MftRecord {
                is_dir: false,
                attributes: vec![
                    name(31, FileNamespace::Posix, "under a file"),
                    RecordAttribute::Data(
                        DataResidency::NonResident {
                            first_vcn: 0,
                            file_size: 70_000,
                            allocated_length: 73_728,
                        },
                    ),
                ],
            },
            33 => MftRecord {
                is_dir: false,
                attributes: vec![name(400, FileNamespace::Win32, "lost")],
            },
            _ => MftRecord {
                is_dir: false,
                attributes: vec![name(5, FileNamespace::Win32, "system file")],
            },
        };
        if i == 39 {
            records.push(None);
        } else {
            records.push(Some(record));
        }
    }
    records
}

#[test]
fn scan_link_and_list() {
    let flat = VolumeIndexFlatArray::from_mft_reader(&catalogue(), None);
    assert_eq!(flat.0.len(), 40);
    for i in 12..24 {
        assert!(flat.0[i].is_none());
    }
    assert!(flat.0[39].is_none());
    let (tree, dropped) = flat.build_tree();
    assert_eq!(dropped, 2);
    assert_eq!(tree.dir_children(5), Some(vec![25, 26, 27, 28, 29, 30, 31, 34, 35, 36, 37, 38]));
    assert_eq!(tree.dir_children(30), Some(vec![31]));
    assert_eq!(tree.dir_children(11), Some(vec![]));
    assert_eq!(tree.dir_children(31), Some(vec![]));
    assert_eq!(tree.dir_children(12), None);
    assert_eq!(tree.dir_children(39), None);
    assert_eq!(tree.dir_children(40), None);
    let root = tree.0[5].as_ref().unwrap();
    assert!(root.children_indices.contains(&5));
    assert!(root.children_indices.contains(&11));
    assert!(root.children_indices.contains(&0));
    let linked = tree.0[31].as_ref().unwrap();
    assert_eq!(linked.name, Some(String::from("notes link.txt")));
    assert_eq!(linked.file_size, 120);
    assert_eq!(linked.allocated_size, 120);
    let big = tree.0[32].as_ref().unwrap();
    assert_eq!(big.file_size, 70_000);
    assert_eq!(big.allocated_size, 73_728);
    assert!(big.allocated_size >= big.file_size);
}

#[test]
fn members_come_out_ascending() {
    let mut set = BTreeSet::new();
    assert!(insert_index(&mut set, 9));
    assert!(insert_index(&mut set, 2));
    assert!(!insert_index(&mut set, 9));
    assert!(insert_index(&mut set, usize::MAX));
    assert!(insert_index(&mut set, 0));
    assert_eq!(ordered_members(&set), vec![0, 2, 9, usize::MAX]);
    assert_eq!(ordered_members(&BTreeSet::new()), Vec::<usize>::new());
}
