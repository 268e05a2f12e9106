use partition_store::bytes::{push_decimal, to_be_bytes};
use partition_store::key::{
    Key, Location, Partition, APP_DATA_CF, BLOCK_HEADER_CF, CONFIDENCE_FACTOR_CF,
    FINALITY_SYNC_CHECKPOINT_KEY, KADEMLIA_STORE_CF, STATE_CF,
};
use partition_store::store::open_plan;

#[test]
fn app_data_key_is_decimal_text() {
    let location = Key::AppData(1, 20).route();
    assert_eq!(location.partition, Some(Partition::AppData));
    assert_eq!(location.key, b"1:20".to_vec());
    assert_eq!(Key::AppData(0, 0).route().key, b"0:0".to_vec());
    assert_eq!(
        Key::AppData(u32::MAX, u32::MAX).route().key,
        b"4294967295:4294967295".to_vec()
    );
    assert_eq!(Key::AppData(100, 7).route().key, format!("{}:{}", 100, 7).into_bytes());
}

#[test]
fn block_header_key_is_big_endian() {
    let location = Key::BlockHeader(42).route();
    assert_eq!(location.partition, Some(Partition::BlockHeader));
    assert_eq!(location.key, vec![0, 0, 0, 42]);
    assert_eq!(Key::BlockHeader(0x0102_0304).route().key, vec![1, 2, 3, 4]);
    assert_eq!(Key::BlockHeader(0).route().key, vec![0, 0, 0, 0]);
    assert_eq!(Key::BlockHeader(u32::MAX).route().key, vec![255, 255, 255, 255]);
}

#[test]
fn verified_cell_count_key_is_big_endian() {
    let location = Key::VerifiedCellCount(256).route();
    assert_eq!(location.partition, Some(Partition::ConfidenceFactor));
    assert_eq!(location.key, vec![0, 0, 1, 0]);
    assert_eq!(
        Key::VerifiedCellCount(3_000_000_000).route().key,
        3_000_000_000u32.to_be_bytes().to_vec()
    );
}

#[test]
fn checkpoint_key_is_the_constant() {
    let location = Key::FinalitySyncCheckpoint.route();
    assert_eq!(location.partition, Some(Partition::State));
    assert_eq!(location.key, b"finality_sync_checkpoint".to_vec());
    assert_eq!(location.key, FINALITY_SYNC_CHECKPOINT_KEY.as_bytes().to_vec());
}

#[test]
fn kademlia_key_is_the_raw_bytes() {
    let location = Key::KademliaRecord(vec![9, 8, 7, 0, 255]).route();
    assert_eq!(location.partition, Some(Partition::KademliaStore));
    assert_eq!(location.key, vec![9, 8, 7, 0, 255]);
    assert_eq!(Key::KademliaRecord(Vec::new()).route().key, Vec::<u8>::new());
}

#[test]
fn router_is_deterministic() {
    let keys = vec![
        Key::AppData(3, 4),
        Key::BlockHeader(5),
        Key::VerifiedCellCount(5),
        Key::FinalitySyncCheckpoint,
        Key::KademliaRecord(vec![1, 2]),
    ];
    for key in keys {
        let first: Location = key.clone().route();
        let second: Location = key.route();
        assert_eq!(first, second);
    }
}

#[test]
fn router_is_injective_within_a_kind() {
    assert_ne!(Key::AppData(1, 23).route().key, Key::AppData(12, 3).route().key);
    assert_ne!(Key::AppData(11, 1).route().key, Key::AppData(1, 11).route().key);
    assert_ne!(Key::BlockHeader(1).route().key, Key::BlockHeader(256).route().key);
    assert_ne!(
        Key::VerifiedCellCount(1).route().key,
        Key::VerifiedCellCount(16_777_216).route().key
    );
}

#[test]
fn block_keys_sort_like_block_numbers() {
    let numbers: Vec<u32> = vec![0, 1, 2, 9, 10, 255, 256, 257, 65_535, 65_536, 16_777_215,
        16_777_216, 1_000_000_000, u32::MAX - 1, u32::MAX];
    for m in numbers.iter() {
        for n in numbers.iter() {
            let a = Key::BlockHeader(*m).route().key;
            let b = Key::BlockHeader(*n).route().key;
            assert_eq!(a < b, m < n);
            let c = Key::VerifiedCellCount(*m).route().key;
            let d = Key::VerifiedCellCount(*n).route().key;
            assert_eq!(c < d, m < n);
        }
    }
}

#[test]
fn equal_numbers_of_different_kinds_live_apart() {
    let header = Key::BlockHeader(7).route();
    let count = Key::VerifiedCellCount(7).route();
    assert_eq!(header.key, count.key);
    assert_ne!(header.partition, count.partition);
    assert_ne!(header, count);
}

#[test]
fn partitions_have_their_names() {
    assert_eq!(Partition::AppData.name(), "avail_light_app_data_cf");
    assert_eq!(Partition::BlockHeader.name(), "avail_light_block_header_cf");
    assert_eq!(Partition::ConfidenceFactor.name(), "avail_light_confidence_factor_cf");
    assert_eq!(Partition::State.name(), "avail_light_state_cf");
    assert_eq!(Partition::KademliaStore.name(), "avail_light_kademlia_store_cf");
    assert_eq!(Partition::AppData.name(), APP_DATA_CF);
    assert_eq!(Partition::BlockHeader.name(), BLOCK_HEADER_CF);
    assert_eq!(Partition::ConfidenceFactor.name(), CONFIDENCE_FACTOR_CF);
    assert_eq!(Partition::State.name(), STATE_CF);
    assert_eq!(Partition::KademliaStore.name(), KADEMLIA_STORE_CF);
}

#[test]
fn all_partitions_are_listed_once() {
    let all = Partition::all();
    assert_eq!(
        all,
        vec![
            Partition::ConfidenceFactor,
            Partition::BlockHeader,
            Partition::AppData,
            Partition::State,
            Partition::KademliaStore,
        ]
    );
}

#[test]
fn engine_is_opened_with_every_partition() {
    let plan = open_plan();
    assert!(plan.create_if_missing);
    assert!(plan.create_missing_partitions);
    assert_eq!(
        plan.partitions,
        vec![
            "avail_light_confidence_factor_cf",
            "avail_light_block_header_cf",
            "avail_light_app_data_cf",
            "avail_light_state_cf",
            "avail_light_kademlia_store_cf",
        ]
    );
}

#[test]
fn big_endian_bytes_match_std() {
    for n in [0u32, 1, 255, 256, 0xDEAD_BEEF, u32::MAX] {
        assert_eq!(to_be_bytes(n), n.to_be_bytes().to_vec());
    }
}

#[test]
fn decimal_text_is_appended() {
    let mut out = vec![b'x'];
    push_decimal(&mut out, 0);
    assert_eq!(out, b"x0".to_vec());
    push_decimal(&mut out, 907);
    assert_eq!(out, b"x0907".to_vec());
    for n in [9u32, 10, 99, 100, 1_000_000, u32::MAX] {
        let mut text = Vec::new();
        push_decimal(&mut text, n);
        assert_eq!(text, format!("{}", n).into_bytes());
    }
}

#[test]
fn location_names_its_partition() {
    assert_eq!(Key::BlockHeader(1).route().namespace(), Some("avail_light_block_header_cf"));
    assert_eq!(Key::AppData(1, 1).route().namespace(), Some("avail_light_app_data_cf"));
    let unnamed = Location { partition: None, key: vec![1] };
    assert_eq!(unnamed.namespace(), None);
}
