//! The walk over the partition of the distributed hash table's records:
//! each raw item that the engine hands out becomes an entry, and the first
//! item that is no entry ends the walk with an error.

use crate::error::{StorageFault, StoreError};
use crate::key::Partition;
use crate::record::{entry_of_pair, to_entry, Entry, RecordView};
use vstd::prelude::*;

verus! {

/// What the engine's walk hands out at one position.
#[derive(Clone, Debug, PartialEq, Eq)]
pub enum RawItem {
    /// A key and the bytes stored under it.
    Pair(Vec<u8>, Vec<u8>),
    /// The engine failed to read at this position.
    Fault,
}

/// A raw item as a mathematical value.
pub ghost enum RawItemView {
    Pair(Seq<u8>, Seq<u8>),
    Fault,
}

impl View for RawItem {
    type V = RawItemView;

    open spec fn view(&self) -> RawItemView {
        match self {
            RawItem::Pair(key, value) => RawItemView::Pair(key@, value@),
            RawItem::Fault => RawItemView::Fault,
        }
    }
}

/// What the walk hands to its consumer for one call.
#[derive(Clone, Debug, PartialEq, Eq)]
pub enum ScanStep {
    /// The next entry.
    Yield(Entry),
    /// The item was no entry; the walk is over.
    Fail(StoreError),
    /// The walk is over.
    End,
}

/// The entry that a raw item stands for: `Scan` where the engine failed,
/// `Decode` where the stored bytes are no record.
pub open spec fn entry_of(item: RawItemView) -> Result<(Seq<u8>, RecordView), StoreError> {
    match item {
        RawItemView::Pair(key, value) => entry_of_pair(key, value),
        RawItemView::Fault => Err(StoreError::Storage(StorageFault::Scan)),
    }
}

/// Whether every item stands for an entry.
pub open spec fn all_entries(items: Seq<RawItem>) -> bool {
    forall|i: int| 0 <= i < items.len() ==> entry_of(#[trigger] items[i]@) is Ok
}

/// Whether `at` is the first position whose item stands for no entry.
pub open spec fn first_failure(items: Seq<RawItem>, at: int) -> bool {
    &&& 0 <= at < items.len()
    &&& entry_of(items[at]@) is Err
    &&& forall|j: int| 0 <= j < at ==> entry_of(#[trigger] items[j]@) is Ok
}

/// The entry that a raw item stands for.
pub fn entry_of_item(item: &RawItem) -> (out: Result<Entry, StoreError>)
    ensures
        match entry_of(item@) {
            Ok(entry) => out is Ok && out->Ok_0@ == entry,
            Err(error) => out is Err && out->Err_0 == error,
        },
{
    match item {
        RawItem::Pair(key, value) => to_entry(key.as_slice(), value.as_slice()),
        RawItem::Fault => Err(StoreError::Storage(StorageFault::Scan)),
    }
}

/// A forward walk over the records' partition, one item at a time. It is
/// over once the engine has no more items or one item was no entry, and
/// cannot be started again.
#[derive(Debug)]
pub struct RecordScan {
    over: bool,
}

impl RecordScan {
    /// Whether the walk is over.
    pub closed spec fn over(&self) -> bool {
        self.over
    }

    /// A walk that has not begun.
    pub fn new() -> (scan: RecordScan)
        ensures
            !scan.over(),
    {
        RecordScan { over: false }
    }

    /// The partition that is walked, from its first key on.
    pub fn partition() -> (partition: Partition)
        ensures
            partition == Partition::KademliaStore,
    {
        Partition::KademliaStore
    }

    /// Whether the walk is over.
    pub fn is_over(&self) -> (over: bool)
        ensures
            over == self.over(),
    {
        self.over
    }

    /// Takes what the engine's walk handed out, `None` at its end, and says
    /// what the consumer gets. Once the walk is over every call gives `End`.
    pub fn advance(&mut self, item: Option<&RawItem>) -> (step: ScanStep)
        ensures
            old(self).over() ==> step == ScanStep::End && final(self).over(),
            !old(self).over() ==> match item {
                None => step == ScanStep::End && final(self).over(),
                Some(raw) => match entry_of(raw@) {
                    Ok(entry) => step is Yield && step->Yield_0@ == entry && !final(self).over(),
                    Err(error) => step == ScanStep::Fail(error) && final(self).over(),
                },
            },
    {
        if self.over {
            return ScanStep::End;
        }
        match item {
            None => {
                self.over = true;
                ScanStep::End
            },
            Some(raw) => match entry_of_item(raw) {
                Ok(entry) => ScanStep::Yield(entry),
                Err(error) => {
                    self.over = true;
                    ScanStep::Fail(error)
                },
            },
        }
    }
}

/// Walks over all of `items`: one entry for each item, in the same order and
/// under the same key, where every item stands for an entry; else the error
/// of the first item that does not.
pub fn collect_entries(items: &Vec<RawItem>) -> (out: Result<Vec<Entry>, StoreError>)
    ensures
        all_entries(items@) ==> out is Ok && out->Ok_0@.len() == items@.len() && forall|i: int|
            0 <= i < items@.len() ==> entry_of(items@[i]@) == Ok::<
                (Seq<u8>, RecordView),
                StoreError,
            >(#[trigger] out->Ok_0@[i]@),
        !all_entries(items@) ==> out is Err && exists|at: int| #[trigger]
            first_failure(items@, at) && entry_of(items@[at]@) == Err::<
                (Seq<u8>, RecordView),
                StoreError,
            >(out->Err_0),
{
    let mut scan = RecordScan::new();
    let mut entries: Vec<Entry> = Vec::new();
    let mut i: usize = 0;
    while i < items.len()
        invariant
            0 <= i <= items@.len(),
            !scan.over(),
            entries@.len() == i,
            forall|j: int|
                0 <= j < i ==> entry_of(items@[j]@) == Ok::<(Seq<u8>, RecordView), StoreError>(
                    #[trigger] entries@[j]@,
                ),
        decreases items@.len() - i,
    {
        match scan.advance(Some(&items[i])) {
            ScanStep::Yield(entry) => {
                entries.push(entry);
            },
            ScanStep::Fail(error) => {
                proof {
                    let at = i as int;
                    assert forall|j: int| 0 <= j < at implies entry_of(
                        #[trigger] items@[j]@,
                    ) is Ok by {
                        assert(entry_of(items@[j]@) == Ok::<(Seq<u8>, RecordView), StoreError>(
                            entries@[j]@,
                        ));
                    }
                    assert(first_failure(items@, at));
                }
                return Err(error);
            },
            ScanStep::End => {
                proof {
                    assert(false);
                }
            },
        }
        i += 1;
    }
    proof {
        assert forall|j: int| 0 <= j < items@.len() implies entry_of(#[trigger] items@[j]@) is Ok by {
            assert(entry_of(items@[j]@) == Ok::<(Seq<u8>, RecordView), StoreError>(entries@[j]@));
        }
    }
    Ok(entries)
}

} // verus!
