use std::sync::atomic::AtomicUsize;
use std::sync::atomic::Ordering;
use std::sync::Arc;
use win_dedupe::DataResidency;
use win_dedupe::FileNameAttribute;
use win_dedupe::FileNamespace;
use win_dedupe::FlatIndexBuilder;
use win_dedupe::MftRecord;
use win_dedupe::RecordAttribute;
use win_dedupe::VolumeIndexFlatArray;

fn named(parent: usize, name: &str, is_dir: bool) -> MftRecord {
    MftRecord {
        is_dir,
        attributes: vec![
            RecordAttribute::FileName(
                FileNameAttribute {
                    parent,
                    namespace: FileNamespace::Win32,
                    name: String::from(name),
                },
            ),
        ],
    }
}

#[test]
fn new_builder_is_empty() {
    let b = FlatIndexBuilder::new(3);
    assert_eq!(b.entry_count(), 3);
    assert_eq!(b.records_seen(), 0);
    assert_eq!(b.last_progress(), 0);
    assert_eq!(b.unusable_size_count(), 0);
    assert!(!b.is_complete());
}

#[test]
fn undecoded_records_leave_empty_slots() {
    let mut b = FlatIndexBuilder::new(3);
    while !b.is_complete() {
        b.push(None);
    }
    let flat = b.finish();
    assert_eq!(flat.0.len(), 3);
    assert!(flat.0.iter().all(|s| s.is_none()));
}

#[test]
fn empty_catalogue_is_complete_at_once() {
    let b = FlatIndexBuilder::new(0);
    assert!(b.is_complete());
    assert_eq!(b.finish().0.len(), 0);
}

#[test]
fn identity_of_populated_slots() {
    let records = vec![
        Some(named(5, "a", true)),
        None,
        Some(MftRecord { is_dir: false, attributes: vec![] }),
        Some(named(0, "b", false)),
    ];
    let flat = VolumeIndexFlatArray::from_mft_reader(&records, None);
    assert_eq!(flat.0.len(), 4);
    assert!(flat.0[1].is_none());
    assert!(flat.0[2].is_none());
    for (i, slot) in flat.0.iter().enumerate() {
        if let Some(m) = slot {
            assert_eq!(m.index, i as u64);
        }
    }
    assert_eq!(flat.0[0].as_ref().unwrap().name, Some(String::from("a")));
    assert_eq!(flat.0[3].as_ref().unwrap().name, Some(String::from("b")));
    assert!(flat.0[3].as_ref().unwrap().parent_indices.contains(&0));
}

#[test]
fn progress_every_record_below_one_hundred() {
    let mut b = FlatIndexBuilder::new(5);
    for i in 0..5 {
        assert_eq!(b.push(None), Some(i));
        assert_eq!(b.last_progress(), i);
    }
    assert!(b.is_complete());
    assert_eq!(b.last_progress(), 4);
}

#[test]
fn progress_every_hundredth() {
    let n = 250;
    let mut b = FlatIndexBuilder::new(n);
    let mut last = 0;
    for i in 0..n {
        let p = b.push(None);
        if i % 2 == 0 {
            assert_eq!(p, Some(i));
        } else {
            assert_eq!(p, None);
        }
        assert!(b.last_progress() >= last);
        last = b.last_progress();
    }
    assert_eq!(b.last_progress(), 248);
    assert!(n - b.last_progress() <= 2);
}

#[test]
fn progress_with_large_step() {
    let n = 1000;
    let mut b = FlatIndexBuilder::new(n);
    let mut published = Vec::new();
    while !b.is_complete() {
        if let Some(p) = b.push(None) {
            published.push(p);
        }
    }
    assert_eq!(published.len(), 100);
    assert_eq!(published[0], 0);
    assert_eq!(published[1], 10);
    assert_eq!(published[99], 990);
    assert!(published.windows(2).all(|w| w[0] <= w[1]));
    assert!(n - b.last_progress() <= 10);
}

#[test]
fn counter_receives_last_progress() {
    let mut records = Vec::new();
    for i in 0..300 {
        records.push(Some(named(5, "f", i % 2 == 0)));
    }
    let counter = Arc::new(AtomicUsize::new(0));
    let flat = VolumeIndexFlatArray::from_mft_reader(&records, Some(counter.clone()));
    assert_eq!(flat.0.len(), 300);
    assert_eq!(counter.load(Ordering::Relaxed), 297);
}

#[test]
fn builder_counts_unusable_sizes() {
    let bad = MftRecord {
        is_dir: false,
        attributes: vec![
            RecordAttribute::Data(
                DataResidency::NonResident { first_vcn: 3, file_size: 9, allocated_length: 9 },
            ),
        ],
    };
    let good = MftRecord {
        is_dir: false,
        attributes: vec![RecordAttribute::Data(DataResidency::Resident { data_size: 9 })],
    };
    let mut b = FlatIndexBuilder::new(3);
    b.push(Some(&bad));
    b.push(Some(&good));
    b.push(None);
    assert_eq!(b.unusable_size_count(), 1);
    assert_eq!(b.records_seen(), 3);
    let flat = b.finish();
    assert_eq!(flat.0[0].as_ref().unwrap().file_size, 0);
    assert_eq!(flat.0[1].as_ref().unwrap().file_size, 9);
    assert!(flat.0[2].is_none());
}

#[test]
fn builder_and_batch_agree() {
    let records = vec![Some(named(1, "x", true)), None, Some(named(0, "y", false))];
    let batch = VolumeIndexFlatArray::from_mft_reader(&records, None);
    let mut b = FlatIndexBuilder::new(records.len());
    for r in records.iter() {
        b.push(r.as_ref());
    }
    let streamed = b.finish();
    for i in 0..records.len() {
        match (&batch.0[i], &streamed.0[i]) {
            (None, None) => {}
            (Some(a), Some(c)) => {
                assert_eq!(a.name, c.name);
                assert_eq!(a.index, c.index);
                assert_eq!(a.parent_indices, c.parent_indices);
                assert_eq!(a.is_dir, c.is_dir);
            }
            _ => panic!("slots differ"),
        }
    }
}
