//! What the store's requests do to an engine that works as an ordered byte
//! map with partitions, and what follows for the store's operations.
//!
//! The engine itself is outside this library. Everything here is stated of
//! an engine that holds exactly what was last written at each location and
//! answers every request; nothing here is claimed of an engine that fails.

use crate::error::{StorageFault, StoreError};
use crate::bytes::precedes;
use crate::key::{
    lemma_block_header_order, lemma_route_injective, lemma_verified_cell_count_order, Key, KeyView,
    Partition,
};
use crate::record::{Record, RecordView};
use crate::scan::{all_entries, entry_of, RawItem, RawItemView};
use crate::store::{fetched_as, written, ReplyView, RequestView};
use crate::value::Stored;
use vstd::prelude::*;

verus! {

/// What an engine holds: the bytes at each location.
pub type Contents = Map<(Option<Partition>, Seq<u8>), Seq<u8>>;

/// What the engine holds after it has carried out `request`.
pub open spec fn contents_after(request: RequestView, contents: Contents) -> Contents {
    match request {
        RequestView::Put { location, value } => contents.insert(location, value),
        RequestView::Get { location } => contents,
        RequestView::Delete { location } => contents.remove(location),
    }
}

/// How the engine answers `request` when it holds `contents`.
pub open spec fn reply_to(request: RequestView, contents: Contents) -> ReplyView {
    match request {
        RequestView::Put { location, value } => ReplyView::Done,
        RequestView::Get { location } => if contents.contains_key(location) {
            ReplyView::Found(contents[location])
        } else {
            ReplyView::Absent
        },
        RequestView::Delete { location } => ReplyView::Done,
    }
}

/// The request of a `put` of `value` under `key`.
pub open spec fn put_of<T: Stored>(key: Key, value: T::V) -> RequestView {
    RequestView::Put { location: key@.location(), value: T::encoding(value) }
}

/// The request of a `get` of `key`.
pub open spec fn get_of(key: Key) -> RequestView {
    RequestView::Get { location: key@.location() }
}

/// The request of a `delete` of `key`.
pub open spec fn delete_of(key: Key) -> RequestView {
    RequestView::Delete { location: key@.location() }
}

/// A `get` after a `put` under the same key gives the value that was put.
pub proof fn lemma_get_after_put<T: Stored>(contents: Contents, key: Key, value: T::V)
    requires
        T::encodable(value),
    ensures
        written(reply_to(put_of::<T>(key, value), contents), StorageFault::Put) == Ok::<
            (),
            StoreError,
        >(()),
        fetched_as::<T>(
            reply_to(get_of(key), contents_after(put_of::<T>(key, value), contents)),
        ) == Ok::<Option<T::V>, StoreError>(Some(value)),
{
    T::lemma_round_trip(value);
}

/// A `get` of a key under which nothing is stored gives nothing.
pub proof fn lemma_get_absent<T: Stored>(contents: Contents, key: Key)
    requires
        !contents.contains_key(key@.location()),
    ensures
        fetched_as::<T>(reply_to(get_of(key), contents)) == Ok::<Option<T::V>, StoreError>(None),
{
}

/// A `put` under one key changes nothing that a `get` of another key sees.
pub proof fn lemma_put_keeps_other_keys<T: Stored>(
    contents: Contents,
    key: Key,
    value: T::V,
    other: Key,
)
    requires
        key@ != other@,
    ensures
        reply_to(get_of(other), contents_after(put_of::<T>(key, value), contents)) == reply_to(
            get_of(other),
            contents,
        ),
{
    if key@.location() == other@.location() {
        lemma_route_injective(key, other);
    }
}

/// A `put` under a key of one kind is never seen under a key of another
/// kind, whatever numbers or bytes the two keys hold.
pub proof fn lemma_put_isolated<T: Stored>(contents: Contents, key: Key, value: T::V, other: Key)
    requires
        key@.partition() != other@.partition(),
    ensures
        reply_to(get_of(other), contents_after(put_of::<T>(key, value), contents)) == reply_to(
            get_of(other),
            contents,
        ),
{
}

/// A `delete` of a key under which nothing is stored succeeds and changes
/// nothing.
pub proof fn lemma_delete_absent(contents: Contents, key: Key)
    requires
        !contents.contains_key(key@.location()),
    ensures
        written(reply_to(delete_of(key), contents), StorageFault::Delete) == Ok::<(), StoreError>(
            (),
        ),
        contents_after(delete_of(key), contents) == contents,
{
    assert(contents.remove(key@.location()) =~= contents);
}

/// A second `delete` of the same key succeeds and changes nothing more.
pub proof fn lemma_delete_twice(contents: Contents, key: Key)
    ensures
        written(
            reply_to(delete_of(key), contents_after(delete_of(key), contents)),
            StorageFault::Delete,
        ) == Ok::<(), StoreError>(()),
        contents_after(delete_of(key), contents_after(delete_of(key), contents)) == contents_after(
            delete_of(key),
            contents,
        ),
{
    lemma_delete_absent(contents_after(delete_of(key), contents), key);
}

/// A `get` after a `delete` of the same key gives nothing.
pub proof fn lemma_get_after_delete<T: Stored>(contents: Contents, key: Key)
    ensures
        fetched_as::<T>(reply_to(get_of(key), contents_after(delete_of(key), contents))) == Ok::<
            Option<T::V>,
            StoreError,
        >(None),
{
}

/// What a `put` of a record under its raw key leaves in the engine is an
/// item that the walk over the records' partition turns into that record
/// under that key.
pub proof fn lemma_put_record_is_entry(raw_key: Vec<u8>, record: RecordView)
    requires
        Record::encodable(record),
    ensures
        put_of::<Record>(Key::KademliaRecord(raw_key), record) == (RequestView::Put {
            location: (Some(Partition::KademliaStore), raw_key@),
            value: Record::encoding(record),
        }),
        entry_of(RawItemView::Pair(raw_key@, Record::encoding(record))) == Ok::<
            (Seq<u8>, RecordView),
            StoreError,
        >((raw_key@, record)),
{
    Record::lemma_round_trip(record);
}

/// The keys under which `contents` holds something in `partition`.
pub open spec fn keys_in(contents: Contents, partition: Partition) -> Set<Seq<u8>> {
    Set::new(|key: Seq<u8>| contents.contains_key((Some(partition), key)))
}

/// The key of a raw item.
pub open spec fn key_of(item: RawItemView) -> Seq<u8> {
    match item {
        RawItemView::Pair(key, _) => key,
        RawItemView::Fault => Seq::empty(),
    }
}

/// Whether `item` is a pair that `contents` holds in `partition`.
pub open spec fn held(contents: Contents, partition: Partition, item: RawItemView) -> bool {
    match item {
        RawItemView::Pair(key, value) => contents.contains_key((Some(partition), key))
            && contents[(Some(partition), key)] == value,
        RawItemView::Fault => false,
    }
}

/// Whether `items` is what a walk over `partition` from its first key on
/// hands out when the engine holds `contents`: every pair that is held
/// there, and nothing else, in the order of the keys.
pub open spec fn is_walk_of(items: Seq<RawItem>, contents: Contents, partition: Partition) -> bool {
    &&& forall|i: int| 0 <= i < items.len() ==> held(contents, partition, (#[trigger] items[i])@)
    &&& forall|key: Seq<u8>| #[trigger]
        keys_in(contents, partition).contains(key) ==> exists|i: int|
            0 <= i < items.len() && key_of((#[trigger] items[i])@) == key
    &&& forall|i: int, j: int|
        #![trigger items[i], items[j]]
        0 <= i < j < items.len() ==> precedes(key_of(items[i]@), key_of(items[j]@))
}

/// A walk hands out as many items as the partition holds keys.
pub proof fn lemma_walk_length(items: Seq<RawItem>, contents: Contents, partition: Partition)
    requires
        is_walk_of(items, contents, partition),
    ensures
        keys_in(contents, partition).finite(),
        items.len() == keys_in(contents, partition).len(),
{
    let keys = Seq::new(items.len(), |i: int| key_of(items[i]@));
    assert forall|i: int, j: int| 0 <= i < keys.len() && 0 <= j < keys.len() && i != j implies keys[i]
        != keys[j] by {
        if i < j {
            assert(precedes(key_of(items[i]@), key_of(items[j]@)));
        } else {
            assert(precedes(key_of(items[j]@), key_of(items[i]@)));
        }
    }
    assert forall|key: Seq<u8>| keys.to_set().contains(key) <==> keys_in(
        contents,
        partition,
    ).contains(key) by {
        if keys.to_set().contains(key) {
            let i = choose|i: int| 0 <= i < keys.len() && keys[i] == key;
            assert(held(contents, partition, items[i]@));
        }
        if keys_in(contents, partition).contains(key) {
            let i = choose|i: int| 0 <= i < items.len() && key_of((#[trigger] items[i])@) == key;
            assert(keys[i] == key);
        }
    }
    assert(keys.to_set() =~= keys_in(contents, partition));
    keys.unique_seq_to_set();
    vstd::seq_lib::seq_to_set_is_finite(keys);
}

/// A `put` of a record under a raw key adds that key to the records'
/// partition, with bytes that decode as the record.
pub proof fn lemma_put_record_adds_key(contents: Contents, raw_key: Vec<u8>, record: RecordView)
    requires
        Record::encodable(record),
    ensures
        ({
            let after = contents_after(
                put_of::<Record>(Key::KademliaRecord(raw_key), record),
                contents,
            );
            &&& keys_in(after, Partition::KademliaStore) == keys_in(
                contents,
                Partition::KademliaStore,
            ).insert(raw_key@)
            &&& Record::decoding(after[(Some(Partition::KademliaStore), raw_key@)]) == Some(record)
            &&& forall|key: Seq<u8>|
                key != raw_key@ && #[trigger] keys_in(contents, Partition::KademliaStore).contains(
                    key,
                ) ==> after[(Some(Partition::KademliaStore), key)] == contents[(
                    Some(Partition::KademliaStore),
                    key,
                )]
        }),
{
    Record::lemma_round_trip(record);
    let after = contents_after(put_of::<Record>(Key::KademliaRecord(raw_key), record), contents);
    assert(keys_in(after, Partition::KademliaStore) =~= keys_in(
        contents,
        Partition::KademliaStore,
    ).insert(raw_key@));
}

/// Where the records' partition holds nothing but what `put` has written
/// there, a walk over it ends without an error after as many entries as the
/// partition holds keys, and each entry is a stored record under its key.
pub proof fn lemma_walk_of_records(items: Seq<RawItem>, contents: Contents)
    requires
        is_walk_of(items, contents, Partition::KademliaStore),
        forall|key: Seq<u8>| #[trigger]
            keys_in(contents, Partition::KademliaStore).contains(key) ==> Record::decoding(
                contents[(Some(Partition::KademliaStore), key)],
            ) is Some,
    ensures
        all_entries(items),
        items.len() == keys_in(contents, Partition::KademliaStore).len(),
        forall|i: int|
            0 <= i < items.len() ==> entry_of((#[trigger] items[i])@) == Ok::<
                (Seq<u8>, RecordView),
                StoreError,
            >(
                (
                    key_of(items[i]@),
                    Record::decoding(
                        contents[(Some(Partition::KademliaStore), key_of(items[i]@))],
                    )->Some_0,
                ),
            ),
{
    lemma_walk_length(items, contents, Partition::KademliaStore);
    assert forall|i: int| 0 <= i < items.len() implies entry_of((#[trigger] items[i])@) == Ok::<
        (Seq<u8>, RecordView),
        StoreError,
    >(
        (
            key_of(items[i]@),
            Record::decoding(
                contents[(Some(Partition::KademliaStore), key_of(items[i]@))],
            )->Some_0,
        ),
    ) by {
        assert(held(contents, Partition::KademliaStore, items[i]@));
        assert(keys_in(contents, Partition::KademliaStore).contains(key_of(items[i]@)));
    }
}

/// A walk over the block headers meets them in the order of their block
/// numbers.
pub proof fn lemma_headers_walked_in_order(
    items: Seq<RawItem>,
    contents: Contents,
    i: int,
    j: int,
    m: u32,
    n: u32,
)
    requires
        is_walk_of(items, contents, Partition::BlockHeader),
        0 <= i < j < items.len(),
        key_of(items[i]@) == KeyView::BlockHeader(m).byte_key(),
        key_of(items[j]@) == KeyView::BlockHeader(n).byte_key(),
    ensures
        m < n,
{
    assert(precedes(key_of(items[i]@), key_of(items[j]@)));
    lemma_block_header_order(m, n);
}

/// A walk over the verified cell counts meets them in the order of their
/// block numbers.
pub proof fn lemma_cell_counts_walked_in_order(
    items: Seq<RawItem>,
    contents: Contents,
    i: int,
    j: int,
    m: u32,
    n: u32,
)
    requires
        is_walk_of(items, contents, Partition::ConfidenceFactor),
        0 <= i < j < items.len(),
        key_of(items[i]@) == KeyView::VerifiedCellCount(m).byte_key(),
        key_of(items[j]@) == KeyView::VerifiedCellCount(n).byte_key(),
    ensures
        m < n,
{
    assert(precedes(key_of(items[i]@), key_of(items[j]@)));
    lemma_verified_cell_count_order(m, n);
}

} // verus!
