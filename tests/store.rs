use blocktrail::block::{Block, BlockHash};
use blocktrail::utils::BuilderIdentity;
use blocktrail::store::{StorageError, Store};

fn hash(tag: u8) -> BlockHash {
    let mut bytes = [0u8; 32];
    bytes[0] = tag;
    bytes[31] = tag.wrapping_mul(7);
    BlockHash { bytes }
}

fn block(height: u64, tag: u8, parent: u8) -> Block {
    Block {
        height,
        hash: hash(tag),
        parent_hash: hash(parent),
        timestamp: 1_700_000_000 + height * 12,
        transaction_count: height % 200,
        gas_used: 15_000_000,
        gas_limit: 30_000_000,
        base_fee_per_gas: 7,
        builder: BuilderIdentity::Flashbots,
    }
}

fn chain(first: u64, n: u64) -> Vec<Block> {
    (0..n).map(|i| block(first + i, (i + 1) as u8, i as u8)).collect()
}

#[test]
fn linear_inserts_keep_head_and_lookups() {
    let mut store = Store::new();
    assert_eq!(store.head(), None);
    let blocks = chain(100, 20);
    for (i, b) in blocks.iter().enumerate() {
        assert_eq!(store.insert(*b), Ok(()));
        assert_eq!(store.head(), Some(*b));
        for earlier in &blocks[..=i] {
            assert_eq!(store.get_by_height(earlier.height), Some(*earlier));
            assert_eq!(store.get_by_hash(&earlier.hash), Some(*earlier));
        }
    }
    assert_eq!(store.len(), 20);
    assert_eq!(store.get_by_height(99), None);
    assert_eq!(store.get_by_height(120), None);
    assert_eq!(store.get_by_hash(&hash(200)), None);
}

#[test]
fn inserting_same_block_twice_changes_nothing() {
    let mut store = Store::new();
    for b in chain(5, 4) {
        store.insert(b).unwrap();
    }
    let b = block(8, 4, 3);
    assert_eq!(store.insert(b), Ok(()));
    let once = store.snapshot();
    assert_eq!(store.insert(b), Ok(()));
    assert_eq!(store.snapshot(), once);
    let middle = block(6, 2, 1);
    assert_eq!(store.insert(middle), Ok(()));
    assert_eq!(store.snapshot(), once);
}

#[test]
fn rollback_then_insert_replaces_tail() {
    let mut store = Store::new();
    for b in chain(0, 10) {
        store.insert(b).unwrap();
    }
    assert_eq!(store.rollback_to(4), Ok(()));
    let fresh = block(5, 99, 5);
    assert_eq!(store.insert(fresh), Ok(()));
    assert_eq!(store.len(), 6);
    assert_eq!(store.head(), Some(fresh));
    for h in 0..=5 {
        assert!(store.get_by_height(h).is_some());
    }
    for h in 6..10 {
        assert_eq!(store.get_by_height(h), None);
    }
    assert_eq!(store.get_by_hash(&hash(7)), None);
}

#[test]
fn rollback_at_or_above_head_is_noop() {
    let mut store = Store::new();
    for b in chain(3, 3) {
        store.insert(b).unwrap();
    }
    let before = store.snapshot();
    assert_eq!(store.rollback_to(5), Ok(()));
    assert_eq!(store.rollback_to(50), Ok(()));
    assert_eq!(store.snapshot(), before);
}

#[test]
fn rollback_to_missing_height_is_refused() {
    let mut store = Store::new();
    assert_eq!(store.rollback_to(0), Err(StorageError::Missing { height: 0 }));
    for b in chain(3, 3) {
        store.insert(b).unwrap();
    }
    let before = store.snapshot();
    assert_eq!(store.rollback_to(2), Err(StorageError::Missing { height: 2 }));
    assert_eq!(store.snapshot(), before);
}

#[test]
fn insert_with_gap_is_refused() {
    let mut store = Store::new();
    for b in chain(3, 3) {
        store.insert(b).unwrap();
    }
    let before = store.snapshot();
    assert_eq!(store.insert(block(7, 50, 49)), Err(StorageError::Gap { height: 7, head: 5 }));
    assert_eq!(store.insert(block(1, 50, 49)), Err(StorageError::BelowWindow { height: 1, lowest: 3 }));
    assert_eq!(store.snapshot(), before);
}

#[test]
fn reseed_keeps_only_the_new_block() {
    let mut store = Store::new();
    for b in chain(3, 3) {
        store.insert(b).unwrap();
    }
    let seed = block(1000, 77, 76);
    store.reseed(seed);
    assert_eq!(store.snapshot(), vec![seed]);
    assert_eq!(store.head(), Some(seed));
}

#[test]
fn snapshot_round_trips_through_from_blocks() {
    let mut store = Store::new();
    for b in chain(40, 6) {
        store.insert(b).unwrap();
    }
    let reopened = Store::from_blocks(store.snapshot()).unwrap();
    assert_eq!(reopened.head(), store.head());
    assert_eq!(reopened.all_hashes(), store.all_hashes());
    assert_eq!(reopened.snapshot(), store.snapshot());
}

#[test]
fn from_blocks_refuses_gaps() {
    let mut blocks = chain(40, 6);
    blocks.remove(2);
    assert!(matches!(Store::from_blocks(blocks), Err(StorageError::Corrupt)));
    assert!(Store::from_blocks(Vec::new()).unwrap().head().is_none());
}

#[test]
fn every_enumerated_hash_resolves_to_its_height() {
    let mut store = Store::new();
    let check = |s: &Store| {
        for (i, h) in s.all_hashes().iter().enumerate() {
            let b = s.get_by_hash(h).unwrap();
            assert_eq!(s.get_by_height(b.height), Some(b));
            assert_eq!(s.snapshot()[i].hash, *h);
        }
    };
    for b in chain(0, 8) {
        store.insert(b).unwrap();
        check(&store);
    }
    store.rollback_to(3).unwrap();
    check(&store);
    store.insert(block(4, 60, 4)).unwrap();
    check(&store);
    assert_eq!(store.all_hashes(), vec![hash(1), hash(2), hash(3), hash(4), hash(60)]);
}

#[test]
fn insert_just_below_window_extends_it_downward() {
    let mut store = Store::new();
    for b in chain(3, 3) {
        store.insert(b).unwrap();
    }
    let below = block(2, 70, 69);
    assert_eq!(store.insert(below), Ok(()));
    assert_eq!(store.len(), 4);
    assert_eq!(store.get_by_height(2), Some(below));
    assert_eq!(store.head(), Some(block(5, 3, 2)));
    assert_eq!(store.snapshot()[0], below);
    assert_eq!(store.insert(block(0, 71, 70)), Err(StorageError::BelowWindow { height: 0, lowest: 2 }));
}

#[test]
fn seeding_inserts_or_restarts_the_window() {
    let mut store = Store::new();
    for b in chain(10, 3) {
        store.insert(b).unwrap();
    }
    let next = block(13, 4, 3);
    store.insert_or_reseed(next);
    assert_eq!(store.len(), 4);
    assert_eq!(store.head(), Some(next));
    let far = block(50, 90, 89);
    store.insert_or_reseed(far);
    assert_eq!(store.snapshot(), vec![far]);
    let low = block(3, 91, 90);
    store.insert_or_reseed(low);
    assert_eq!(store.snapshot(), vec![low]);
    assert_eq!(store.get_by_height(3), Some(low));
}
