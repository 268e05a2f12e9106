//! What can go wrong in the store.

use vstd::prelude::*;

verus! {

/// A failure of the engine, or of resolving a partition in it.
#[derive(Clone, Copy, Debug, PartialEq, Eq, Structural)]
pub enum StorageFault {
    /// The engine does not know the partition that the key is routed to.
    PartitionMissing,
    /// The engine failed to write.
    Put,
    /// The engine failed to read.
    Get,
    /// The engine failed to delete.
    Delete,
    /// The engine failed while it walked a partition.
    Scan,
}

/// The error of every operation of the store.
#[derive(Clone, Copy, Debug, PartialEq, Eq, Structural)]
pub enum StoreError {
    /// The engine failed, or a partition could not be resolved.
    Storage(StorageFault),
    /// Stored bytes do not parse as the requested type.
    Decode,
    /// A value has no encoding.
    Encode,
}

impl StoreError {
    /// The text that describes this error.
    pub open spec fn spec_message(self) -> Seq<char> {
        match self {
            StoreError::Storage(StorageFault::PartitionMissing) =>
                "Couldn't get Column Family handle from the engine"@,
            StoreError::Storage(StorageFault::Put) => "Put operation failed on the engine"@,
            StoreError::Storage(StorageFault::Get) => "Get operation failed on the engine"@,
            StoreError::Storage(StorageFault::Delete) => "Delete operation failed on the engine"@,
            StoreError::Storage(StorageFault::Scan) => "Expected value, got error"@,
            StoreError::Decode => "Failed decoding the stored data"@,
            StoreError::Encode => "Failed encoding the value"@,
        }
    }

    /// The text that describes this error.
    pub fn message(&self) -> (text: &'static str)
        ensures
            text@ == self.spec_message(),
    {
        match self {
            StoreError::Storage(StorageFault::PartitionMissing) =>
                "Couldn't get Column Family handle from the engine",
            StoreError::Storage(StorageFault::Put) => "Put operation failed on the engine",
            StoreError::Storage(StorageFault::Get) => "Get operation failed on the engine",
            StoreError::Storage(StorageFault::Delete) => "Delete operation failed on the engine",
            StoreError::Storage(StorageFault::Scan) => "Expected value, got error",
            StoreError::Decode => "Failed decoding the stored data",
            StoreError::Encode => "Failed encoding the value",
        }
    }
}

} // verus!
