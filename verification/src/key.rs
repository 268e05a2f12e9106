//! Logical keys and the router that maps each of them to a partition of the
//! engine and to the bytes under which its value is kept there.

use crate::bytes::{
    be_bytes, decimal, lemma_be_bytes_injective, lemma_be_bytes_order, lemma_decimal_digits,
    lemma_decimal_injective, precedes, push_decimal, to_be_bytes, ASCII_COLON,
};
use vstd::prelude::*;
use vstd::slice::slice_to_vec;
use vstd::string::StringSliceAdditionalSpecFns;

verus! {

/// Name of the partition that holds application data.
pub const APP_DATA_CF: &'static str = "avail_light_app_data_cf";

/// Name of the partition that holds block headers.
pub const BLOCK_HEADER_CF: &'static str = "avail_light_block_header_cf";

/// Name of the partition that holds the verified cell counts.
pub const CONFIDENCE_FACTOR_CF: &'static str = "avail_light_confidence_factor_cf";

/// Name of the partition that holds the node's own state.
pub const STATE_CF: &'static str = "avail_light_state_cf";

/// Name of the partition that holds the records of the distributed hash table.
pub const KADEMLIA_STORE_CF: &'static str = "avail_light_kademlia_store_cf";

/// The key under which the finality sync checkpoint is kept.
pub const FINALITY_SYNC_CHECKPOINT_KEY: &'static str = "finality_sync_checkpoint";

/// A named, independently scannable namespace of the engine.
#[derive(Clone, Copy, Debug, PartialEq, Eq, Structural, Hash)]
pub enum Partition {
    ConfidenceFactor,
    BlockHeader,
    AppData,
    State,
    KademliaStore,
}

/// What is being stored.
#[derive(Clone, Debug, PartialEq, Eq, Hash)]
pub enum Key {
    /// Application data of one application in one block.
    AppData(u32, u32),
    /// The header of a block.
    BlockHeader(u32),
    /// The number of verified cells of a block.
    VerifiedCellCount(u32),
    /// The checkpoint of the finality sync.
    FinalitySyncCheckpoint,
    /// A record of the distributed hash table, under its raw key.
    KademliaRecord(Vec<u8>),
}

/// A key as a mathematical value.
pub ghost enum KeyView {
    AppData(u32, u32),
    BlockHeader(u32),
    VerifiedCellCount(u32),
    FinalitySyncCheckpoint,
    KademliaRecord(Seq<u8>),
}

impl View for Key {
    type V = KeyView;

    open spec fn view(&self) -> KeyView {
        match self {
            Key::AppData(app_id, block_number) => KeyView::AppData(*app_id, *block_number),
            Key::BlockHeader(block_number) => KeyView::BlockHeader(*block_number),
            Key::VerifiedCellCount(block_number) => KeyView::VerifiedCellCount(*block_number),
            Key::FinalitySyncCheckpoint => KeyView::FinalitySyncCheckpoint,
            Key::KademliaRecord(raw) => KeyView::KademliaRecord(raw@),
        }
    }
}

/// Where a value lives in the engine: the partition, or the default
/// namespace where there is none, and the byte key.
#[derive(Clone, Debug, PartialEq, Eq)]
pub struct Location {
    pub partition: Option<Partition>,
    pub key: Vec<u8>,
}

impl View for Location {
    type V = (Option<Partition>, Seq<u8>);

    open spec fn view(&self) -> (Option<Partition>, Seq<u8>) {
        (self.partition, self.key@)
    }
}

impl Location {
    /// The name of the partition, or `None` for the engine's default
    /// namespace.
    pub open spec fn spec_namespace(self) -> Option<Seq<char>> {
        match self.partition {
            Some(partition) => Some(partition.spec_name()),
            None => None,
        }
    }

    /// The name of the partition to resolve on the engine, or `None` where
    /// the value lives in the engine's default namespace.
    pub fn namespace(&self) -> (name: Option<&'static str>)
        ensures
            match self.spec_namespace() {
                Some(text) => name is Some && name->Some_0@ == text,
                None => name is None,
            },
    {
        match self.partition {
            Some(partition) => Some(partition.name()),
            None => None,
        }
    }
}

/// The bytes of the checkpoint key.
pub open spec fn checkpoint_key() -> Seq<u8> {
    FINALITY_SYNC_CHECKPOINT_KEY.spec_bytes()
}

/// The text `"{app_id}:{block_number}"` as bytes.
pub open spec fn app_data_key(app_id: u32, block_number: u32) -> Seq<u8> {
    decimal(app_id as nat).push(ASCII_COLON) + decimal(block_number as nat)
}

impl KeyView {
    /// The partition that holds the values of this kind of key.
    pub open spec fn partition(self) -> Partition {
        match self {
            KeyView::AppData(_, _) => Partition::AppData,
            KeyView::BlockHeader(_) => Partition::BlockHeader,
            KeyView::VerifiedCellCount(_) => Partition::ConfidenceFactor,
            KeyView::FinalitySyncCheckpoint => Partition::State,
            KeyView::KademliaRecord(_) => Partition::KademliaStore,
        }
    }

    /// The bytes under which the value is kept in its partition.
    pub open spec fn byte_key(self) -> Seq<u8> {
        match self {
            KeyView::AppData(app_id, block_number) => app_data_key(app_id, block_number),
            KeyView::BlockHeader(block_number) => be_bytes(block_number),
            KeyView::VerifiedCellCount(block_number) => be_bytes(block_number),
            KeyView::FinalitySyncCheckpoint => checkpoint_key(),
            KeyView::KademliaRecord(raw) => raw,
        }
    }

    /// Partition and byte key together.
    pub open spec fn location(self) -> (Option<Partition>, Seq<u8>) {
        (Some(self.partition()), self.byte_key())
    }
}

impl Partition {
    /// The name under which the engine knows this partition.
    pub open spec fn spec_name(self) -> Seq<char> {
        match self {
            Partition::ConfidenceFactor => CONFIDENCE_FACTOR_CF@,
            Partition::BlockHeader => BLOCK_HEADER_CF@,
            Partition::AppData => APP_DATA_CF@,
            Partition::State => STATE_CF@,
            Partition::KademliaStore => KADEMLIA_STORE_CF@,
        }
    }

    /// The name under which the engine knows this partition.
    pub fn name(&self) -> (name: &'static str)
        ensures
            name@ == self.spec_name(),
    {
        match self {
            Partition::ConfidenceFactor => CONFIDENCE_FACTOR_CF,
            Partition::BlockHeader => BLOCK_HEADER_CF,
            Partition::AppData => APP_DATA_CF,
            Partition::State => STATE_CF,
            Partition::KademliaStore => KADEMLIA_STORE_CF,
        }
    }

    /// Every partition, in the order in which they are created when the
    /// engine is opened.
    pub fn all() -> (list: Vec<Partition>)
        ensures
            list@ == seq![
                Partition::ConfidenceFactor,
                Partition::BlockHeader,
                Partition::AppData,
                Partition::State,
                Partition::KademliaStore,
            ],
            forall|p: Partition| list@.contains(p),
    {
        let list = vec![
            Partition::ConfidenceFactor,
            Partition::BlockHeader,
            Partition::AppData,
            Partition::State,
            Partition::KademliaStore,
        ];
        assert forall|p: Partition| list@.contains(p) by {
            let i: int = match p {
                Partition::ConfidenceFactor => 0,
                Partition::BlockHeader => 1,
                Partition::AppData => 2,
                Partition::State => 3,
                Partition::KademliaStore => 4,
            };
            assert(list@[i] == p);
        }
        list
    }
}

impl Key {
    /// The partition and the byte key of this key.
    pub fn route(self) -> (location: Location)
        ensures
            location@ == self@.location(),
    {
        match self {
            Key::AppData(app_id, block_number) => {
                let mut key: Vec<u8> = Vec::new();
                push_decimal(&mut key, app_id);
                key.push(ASCII_COLON);
                push_decimal(&mut key, block_number);
                assert(key@ =~= app_data_key(app_id, block_number));
                Location { partition: Some(Partition::AppData), key }
            },
            Key::BlockHeader(block_number) => Location {
                partition: Some(Partition::BlockHeader),
                key: to_be_bytes(block_number),
            },
            Key::VerifiedCellCount(block_number) => Location {
                partition: Some(Partition::ConfidenceFactor),
                key: to_be_bytes(block_number),
            },
            Key::FinalitySyncCheckpoint => Location {
                partition: Some(Partition::State),
                key: slice_to_vec(FINALITY_SYNC_CHECKPOINT_KEY.as_bytes()),
            },
            Key::KademliaRecord(raw) => Location {
                partition: Some(Partition::KademliaStore),
                key: raw,
            },
        }
    }
}

/// Distinct partitions have distinct names.
pub proof fn lemma_partition_names_distinct(a: Partition, b: Partition)
    requires
        a.spec_name() == b.spec_name(),
    ensures
        a == b,
{
    reveal_strlit("avail_light_app_data_cf");
    reveal_strlit("avail_light_block_header_cf");
    reveal_strlit("avail_light_confidence_factor_cf");
    reveal_strlit("avail_light_state_cf");
    reveal_strlit("avail_light_kademlia_store_cf");
    assert(APP_DATA_CF@.len() == 23);
    assert(BLOCK_HEADER_CF@.len() == 27);
    assert(CONFIDENCE_FACTOR_CF@.len() == 32);
    assert(STATE_CF@.len() == 20);
    assert(KADEMLIA_STORE_CF@.len() == 29);
}

/// Routing depends on the logical key alone: equal keys are routed to the
/// same partition and the same byte key.
pub proof fn lemma_route_deterministic(a: Key, b: Key)
    requires
        a@ == b@,
    ensures
        a@.location() == b@.location(),
{
}

/// Two pairs of numbers with the same text `"{app_id}:{block_number}"` are
/// the same pair.
pub proof fn lemma_app_data_key_injective(a1: u32, b1: u32, a2: u32, b2: u32)
    requires
        app_data_key(a1, b1) == app_data_key(a2, b2),
    ensures
        a1 == a2,
        b1 == b2,
{
    let s = app_data_key(a1, b1);
    let t = app_data_key(a2, b2);
    let d1 = decimal(a1 as nat);
    let d2 = decimal(a2 as nat);
    let e1 = decimal(b1 as nat);
    let e2 = decimal(b2 as nat);
    lemma_decimal_digits(a1 as nat);
    lemma_decimal_digits(a2 as nat);
    assert(s[d1.len() as int] == ASCII_COLON);
    assert(t[d2.len() as int] == ASCII_COLON);
    if d1.len() < d2.len() {
        assert(t[d1.len() as int] == d2[d1.len() as int]);
        assert(false);
    }
    if d2.len() < d1.len() {
        assert(s[d2.len() as int] == d1[d2.len() as int]);
        assert(false);
    }
    let n = d1.len() as int;
    assert(d1 =~= s.subrange(0, n));
    assert(d2 =~= t.subrange(0, n));
    assert(e1 =~= s.subrange(n + 1, s.len() as int));
    assert(e2 =~= t.subrange(n + 1, t.len() as int));
    lemma_decimal_injective(a1 as nat, a2 as nat);
    lemma_decimal_injective(b1 as nat, b2 as nat);
}

/// The router is injective: two keys that are routed to the same partition
/// and the same byte key are the same logical key.
pub proof fn lemma_route_injective(a: Key, b: Key)
    requires
        a@.location() == b@.location(),
    ensures
        a@ == b@,
{
    match (a@, b@) {
        (KeyView::AppData(a1, b1), KeyView::AppData(a2, b2)) => {
            lemma_app_data_key_injective(a1, b1, a2, b2);
        },
        (KeyView::BlockHeader(m), KeyView::BlockHeader(n)) => {
            lemma_be_bytes_injective(m, n);
        },
        (KeyView::VerifiedCellCount(m), KeyView::VerifiedCellCount(n)) => {
            lemma_be_bytes_injective(m, n);
        },
        _ => {},
    }
}

/// Keys of different kinds are never routed to the same place, whatever
/// numbers or bytes they hold.
pub proof fn lemma_kinds_isolated(a: Key, b: Key)
    requires
        a@.partition() != b@.partition(),
    ensures
        a@.location() != b@.location(),
        a@.partition().spec_name() != b@.partition().spec_name(),
{
    if a@.partition().spec_name() == b@.partition().spec_name() {
        lemma_partition_names_distinct(a@.partition(), b@.partition());
    }
}

/// Block headers are kept in the order of their block numbers: one byte key
/// comes before another exactly when its block number is the smaller.
pub proof fn lemma_block_header_order(m: u32, n: u32)
    ensures
        precedes(KeyView::BlockHeader(m).byte_key(), KeyView::BlockHeader(n).byte_key()) <==> m
            < n,
{
    lemma_be_bytes_order(m, n);
}

/// Verified cell counts are kept in the order of their block numbers.
pub proof fn lemma_verified_cell_count_order(m: u32, n: u32)
    ensures
        precedes(
            KeyView::VerifiedCellCount(m).byte_key(),
            KeyView::VerifiedCellCount(n).byte_key(),
        ) <==> m < n,
{
    lemma_be_bytes_order(m, n);
}

} // verus!
