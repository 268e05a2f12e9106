//! The typed store: what it asks of the engine for each operation, and what
//! it makes of the engine's reply.
//!
//! The store itself holds no data. For each operation it routes the key,
//! encodes the value and hands out a [`Request`]; whoever owns the engine
//! carries the request out and hands back a [`Reply`], from which the store
//! computes the operation's result.

use crate::error::{StorageFault, StoreError};
use crate::key::{Key, Location, Partition};
use crate::value::Stored;
use vstd::prelude::*;

verus! {

/// An operation on one key of the engine.
#[derive(Clone, Debug, PartialEq, Eq)]
pub enum Request {
    /// Write `value` at `location`, in place of what is there.
    Put { location: Location, value: Vec<u8> },
    /// Read what is at `location`.
    Get { location: Location },
    /// Remove what is at `location`, if anything.
    Delete { location: Location },
}

/// A request as a mathematical value.
pub ghost enum RequestView {
    Put { location: (Option<Partition>, Seq<u8>), value: Seq<u8> },
    Get { location: (Option<Partition>, Seq<u8>) },
    Delete { location: (Option<Partition>, Seq<u8>) },
}

impl View for Request {
    type V = RequestView;

    open spec fn view(&self) -> RequestView {
        match self {
            Request::Put { location, value } => RequestView::Put {
                location: location@,
                value: value@,
            },
            Request::Get { location } => RequestView::Get { location: location@ },
            Request::Delete { location } => RequestView::Delete { location: location@ },
        }
    }
}

/// How the engine answered a request.
#[derive(Clone, Debug, PartialEq, Eq)]
pub enum Reply {
    /// The engine does not know the partition of the request.
    PartitionMissing,
    /// The engine failed to carry the request out.
    Failed,
    /// A write or a removal was carried out.
    Done,
    /// A read found these bytes.
    Found(Vec<u8>),
    /// A read found nothing.
    Absent,
}

/// A reply as a mathematical value.
pub ghost enum ReplyView {
    PartitionMissing,
    Failed,
    Done,
    Found(Seq<u8>),
    Absent,
}

impl View for Reply {
    type V = ReplyView;

    open spec fn view(&self) -> ReplyView {
        match self {
            Reply::PartitionMissing => ReplyView::PartitionMissing,
            Reply::Failed => ReplyView::Failed,
            Reply::Done => ReplyView::Done,
            Reply::Found(bytes) => ReplyView::Found(bytes@),
            Reply::Absent => ReplyView::Absent,
        }
    }
}

/// The result of a write or a removal, given the engine's reply: success
/// where the engine carried it out, `PartitionMissing` where it does not
/// know the partition, and `fault` on any other reply.
pub open spec fn written(reply: ReplyView, fault: StorageFault) -> Result<(), StoreError> {
    match reply {
        ReplyView::Done => Ok(()),
        ReplyView::PartitionMissing => Err(StoreError::Storage(StorageFault::PartitionMissing)),
        _ => Err(StoreError::Storage(fault)),
    }
}

/// The result of a read as stored bytes, given the engine's reply.
pub open spec fn fetched(reply: ReplyView) -> Result<Option<Seq<u8>>, StoreError> {
    match reply {
        ReplyView::Found(bytes) => Ok(Some(bytes)),
        ReplyView::Absent => Ok(None),
        ReplyView::PartitionMissing => Err(StoreError::Storage(StorageFault::PartitionMissing)),
        _ => Err(StoreError::Storage(StorageFault::Get)),
    }
}

/// The result of a read as a value of type `T`, given the engine's reply:
/// nothing where the key is absent, the decoded value where bytes were
/// found and decode, and `Decode` where they do not.
pub open spec fn fetched_as<T: Stored>(reply: ReplyView) -> Result<Option<T::V>, StoreError> {
    match fetched(reply) {
        Ok(Some(bytes)) => match T::decoding(bytes) {
            Some(value) => Ok(Some(value)),
            None => Err(StoreError::Decode),
        },
        Ok(None) => Ok(None),
        Err(error) => Err(error),
    }
}

/// The request that writes already encoded bytes under `key`.
pub fn put_encoded(key: Key, value: Vec<u8>) -> (request: Request)
    ensures
        request@ == (RequestView::Put { location: key@.location(), value: value@ }),
{
    Request::Put { location: key.route(), value }
}

/// The request that writes `value` under `key`; `Encode` where the value has
/// no encoding.
pub fn put_request<T: Stored>(key: Key, value: &T) -> (out: Result<Request, StoreError>)
    ensures
        T::encodable(value@) ==> out is Ok && out->Ok_0@ == (RequestView::Put {
            location: key@.location(),
            value: T::encoding(value@),
        }),
        !T::encodable(value@) ==> out is Err && out->Err_0 == StoreError::Encode,
{
    match value.encode() {
        Ok(encoded) => Ok(put_encoded(key, encoded)),
        Err(error) => Err(error),
    }
}

/// The request that reads what is stored under `key`.
pub fn get_request(key: Key) -> (request: Request)
    ensures
        request@ == (RequestView::Get { location: key@.location() }),
{
    Request::Get { location: key.route() }
}

/// The request that removes what is stored under `key`.
pub fn delete_request(key: Key) -> (request: Request)
    ensures
        request@ == (RequestView::Delete { location: key@.location() }),
{
    Request::Delete { location: key.route() }
}

/// The result of a `put`, given the engine's reply to its request.
pub fn put_outcome(reply: Reply) -> (out: Result<(), StoreError>)
    ensures
        out == written(reply@, StorageFault::Put),
{
    match reply {
        Reply::Done => Ok(()),
        Reply::PartitionMissing => Err(StoreError::Storage(StorageFault::PartitionMissing)),
        _ => Err(StoreError::Storage(StorageFault::Put)),
    }
}

/// The result of a `delete`, given the engine's reply to its request.
/// The engine answers `Done` also where the key was absent.
pub fn delete_outcome(reply: Reply) -> (out: Result<(), StoreError>)
    ensures
        out == written(reply@, StorageFault::Delete),
{
    match reply {
        Reply::Done => Ok(()),
        Reply::PartitionMissing => Err(StoreError::Storage(StorageFault::PartitionMissing)),
        _ => Err(StoreError::Storage(StorageFault::Delete)),
    }
}

/// The result of a `get` as stored bytes, given the engine's reply to its
/// request.
pub fn get_encoded(reply: Reply) -> (out: Result<Option<Vec<u8>>, StoreError>)
    ensures
        match fetched(reply@) {
            Ok(Some(bytes)) => out is Ok && out->Ok_0 is Some && out->Ok_0->Some_0@ == bytes,
            Ok(None) => out is Ok && out->Ok_0 is None,
            Err(error) => out is Err && out->Err_0 == error,
        },
{
    match reply {
        Reply::Found(bytes) => Ok(Some(bytes)),
        Reply::Absent => Ok(None),
        Reply::PartitionMissing => Err(StoreError::Storage(StorageFault::PartitionMissing)),
        _ => Err(StoreError::Storage(StorageFault::Get)),
    }
}

/// The result of a `get` as a value of type `T`, given the engine's reply to
/// its request. An absent key is `Ok(None)`; bytes that do not decode as `T`
/// are `Decode`.
pub fn get_outcome<T: Stored>(reply: Reply) -> (out: Result<Option<T>, StoreError>)
    ensures
        match fetched_as::<T>(reply@) {
            Ok(Some(value)) => out is Ok && out->Ok_0 is Some && out->Ok_0->Some_0@ == value,
            Ok(None) => out is Ok && out->Ok_0 is None,
            Err(error) => out is Err && out->Err_0 == error,
        },
{
    match get_encoded(reply) {
        Ok(Some(bytes)) => match T::decode(bytes.as_slice()) {
            Ok(value) => Ok(Some(value)),
            Err(error) => Err(error),
        },
        Ok(None) => Ok(None),
        Err(error) => Err(error),
    }
}

/// How the engine is to be opened.
#[derive(Clone, Debug, PartialEq, Eq)]
pub struct OpenPlan {
    /// Whether the engine creates its files where there are none.
    pub create_if_missing: bool,
    /// Whether the engine creates the partitions that it does not have yet.
    pub create_missing_partitions: bool,
    /// The names of the partitions that the engine is opened with.
    pub partitions: Vec<&'static str>,
}

/// The names of all partitions, in the order in which they are created.
pub open spec fn partition_names() -> Seq<Seq<char>> {
    seq![
        Partition::ConfidenceFactor.spec_name(),
        Partition::BlockHeader.spec_name(),
        Partition::AppData.spec_name(),
        Partition::State.spec_name(),
        Partition::KademliaStore.spec_name(),
    ]
}

/// The texts of a list of names.
pub open spec fn texts(names: Seq<&'static str>) -> Seq<Seq<char>> {
    Seq::new(names.len(), |i: int| names[i]@)
}

/// Every partition is among the names that the engine is opened with.
pub proof fn lemma_every_partition_named(partition: Partition)
    ensures
        partition_names().contains(partition.spec_name()),
{
    let i: int = match partition {
        Partition::ConfidenceFactor => 0,
        Partition::BlockHeader => 1,
        Partition::AppData => 2,
        Partition::State => 3,
        Partition::KademliaStore => 4,
    };
    assert(partition_names()[i] == partition.spec_name());
}

/// The engine is opened with every partition, and creates what is missing:
/// after that no key is routed to a partition that the engine does not know.
pub fn open_plan() -> (plan: OpenPlan)
    ensures
        plan.create_if_missing,
        plan.create_missing_partitions,
        texts(plan.partitions@) == partition_names(),
{
    let all = Partition::all();
    let mut partitions: Vec<&'static str> = Vec::new();
    let mut i: usize = 0;
    while i < all.len()
        invariant
            0 <= i <= all@.len(),
            all@.len() == 5,
            partitions@.len() == i,
            forall|j: int| 0 <= j < i ==> (#[trigger] partitions@[j])@ == all@[j].spec_name(),
        decreases all@.len() - i,
    {
        partitions.push(all[i].name());
        i += 1;
    }
    assert(texts(partitions@) =~= partition_names());
    OpenPlan { create_if_missing: true, create_missing_partitions: true, partitions }
}

} // verus!
