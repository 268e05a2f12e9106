use partition_store::error::{StorageFault, StoreError};
use partition_store::key::{Key, Partition};
use partition_store::record::{Entry, Record};
use partition_store::scan::{collect_entries, entry_of_item, RawItem, RecordScan, ScanStep};
use partition_store::store::{put_request, Request};
use std::collections::BTreeMap;

fn record(n: u8) -> Record {
    Record { value: vec![n; 3], publisher: vec![n, n + 1], ttl: 100 + n as u32 }
}

/// The items that a walk over the records' partition hands out after the
/// given records were put under the given raw keys.
fn walk_after_puts(puts: &[(Vec<u8>, Record)]) -> Vec<RawItem> {
    let mut partition: BTreeMap<Vec<u8>, Vec<u8>> = BTreeMap::new();
    for (raw_key, record) in puts {
        match put_request(Key::KademliaRecord(raw_key.clone()), record).unwrap() {
            Request::Put { location, value } => {
                assert_eq!(location.partition, Some(RecordScan::partition()));
                partition.insert(location.key, value);
            }
            _ => unreachable!(),
        }
    }
    partition.into_iter().map(|(key, value)| RawItem::Pair(key, value)).collect()
}

#[test]
fn walk_is_over_the_records_partition() {
    assert_eq!(RecordScan::partition(), Partition::KademliaStore);
}

#[test]
fn every_put_record_is_walked() {
    let puts = vec![
        (vec![3u8, 0], record(1)),
        (vec![1u8], record(2)),
        (vec![2u8, 9, 9], record(3)),
        (vec![1u8, 0], record(4)),
    ];
    let items = walk_after_puts(&puts);
    let entries = collect_entries(&items).unwrap();
    assert_eq!(entries.len(), 4);
    assert_eq!(
        entries,
        vec![
            Entry(vec![1], record(2)),
            Entry(vec![1, 0], record(4)),
            Entry(vec![2, 9, 9], record(3)),
            Entry(vec![3, 0], record(1)),
        ]
    );
}

#[test]
fn empty_partition_gives_no_entries() {
    assert_eq!(collect_entries(&Vec::new()), Ok(Vec::new()));
}

#[test]
fn first_bad_item_ends_the_walk() {
    let mut items = walk_after_puts(&[(vec![1], record(1)), (vec![2], record(2))]);
    items.insert(1, RawItem::Pair(vec![1, 5], vec![200]));
    items.push(RawItem::Fault);
    assert_eq!(collect_entries(&items), Err(StoreError::Decode));
    items.remove(1);
    assert_eq!(collect_entries(&items), Err(StoreError::Storage(StorageFault::Scan)));
    items.pop();
    assert_eq!(collect_entries(&items).map(|entries| entries.len()), Ok(2));
}

#[test]
fn item_becomes_entry() {
    let items = walk_after_puts(&[(vec![7, 7], record(9))]);
    assert_eq!(entry_of_item(&items[0]), Ok(Entry(vec![7, 7], record(9))));
    assert_eq!(entry_of_item(&RawItem::Fault), Err(StoreError::Storage(StorageFault::Scan)));
    assert_eq!(entry_of_item(&RawItem::Pair(vec![1], vec![])), Err(StoreError::Decode));
}

#[test]
fn walk_hands_out_one_entry_per_call() {
    let items = walk_after_puts(&[(vec![1], record(1)), (vec![2], record(2))]);
    let mut scan = RecordScan::new();
    assert!(!scan.is_over());
    assert_eq!(scan.advance(Some(&items[0])), ScanStep::Yield(Entry(vec![1], record(1))));
    assert!(!scan.is_over());
    assert_eq!(scan.advance(Some(&items[1])), ScanStep::Yield(Entry(vec![2], record(2))));
    assert_eq!(scan.advance(None), ScanStep::End);
    assert!(scan.is_over());
}

#[test]
fn walk_cannot_be_started_again() {
    let items = walk_after_puts(&[(vec![1], record(1))]);
    let mut scan = RecordScan::new();
    assert_eq!(scan.advance(None), ScanStep::End);
    assert_eq!(scan.advance(Some(&items[0])), ScanStep::End);
    assert!(scan.is_over());
}

#[test]
fn walk_halts_on_a_corrupt_item() {
    let items = walk_after_puts(&[(vec![1], record(1))]);
    let corrupt = RawItem::Pair(vec![0], vec![12, 1]);
    let mut scan = RecordScan::new();
    assert_eq!(scan.advance(Some(&corrupt)), ScanStep::Fail(StoreError::Decode));
    assert!(scan.is_over());
    assert_eq!(scan.advance(Some(&items[0])), ScanStep::End);
}

#[test]
fn walk_halts_on_an_engine_fault() {
    let mut scan = RecordScan::new();
    assert_eq!(
        scan.advance(Some(&RawItem::Fault)),
        ScanStep::Fail(StoreError::Storage(StorageFault::Scan))
    );
    assert!(scan.is_over());
    assert_eq!(scan.advance(None), ScanStep::End);
}
