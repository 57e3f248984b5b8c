use blocktrail::block::{Block, BlockHash};
use blocktrail::utils::BuilderIdentity;
use blocktrail::codec::{decode_block, encode_block, head_marker, persist, restore, restore_with_head, RECORD_LEN};
use blocktrail::store::{StorageError, Store};

fn sample(height: u64) -> Block {
    let mut hash = [0u8; 32];
    let mut parent = [0u8; 32];
    for i in 0..32 {
        hash[i] = (height as u8).wrapping_add(i as u8);
        parent[i] = (height as u8).wrapping_sub(1).wrapping_add(i as u8);
    }
    Block {
        height,
        hash: BlockHash { bytes: hash },
        parent_hash: BlockHash { bytes: parent },
        timestamp: 0x0102_0304_0506_0708,
        transaction_count: 150,
        gas_used: 12_345_678,
        gas_limit: 30_000_000,
        base_fee_per_gas: u64::MAX,
        builder: BuilderIdentity::Titan,
    }
}

#[test]
fn record_layout_is_little_endian() {
    let b = sample(0x1122);
    let r = encode_block(&b);
    assert_eq!(r.len(), RECORD_LEN);
    assert_eq!(&r[0..8], &[0x22, 0x11, 0, 0, 0, 0, 0, 0]);
    assert_eq!(&r[8..40], &b.hash.bytes[..]);
    assert_eq!(&r[40..72], &b.parent_hash.bytes[..]);
    assert_eq!(&r[72..80], &[8, 7, 6, 5, 4, 3, 2, 1]);
    assert_eq!(&r[104..112], &[0xff; 8]);
    assert_eq!(r[112], 1);
}

#[test]
fn record_round_trip() {
    for h in [0, 1, 255, 256, 19_000_000, u64::MAX] {
        let b = sample(h);
        assert_eq!(decode_block(&encode_block(&b)), Some(b));
    }
}

#[test]
fn short_or_long_record_is_refused() {
    let r = encode_block(&sample(5));
    assert_eq!(decode_block(&r[..RECORD_LEN - 1]), None);
    let mut longer = r.clone();
    longer.push(0);
    assert_eq!(decode_block(&longer), None);
    assert_eq!(decode_block(&[]), None);
}

#[test]
fn reopen_gives_same_store() {
    let mut store = Store::new();
    for h in 30..36 {
        store.insert(sample(h)).unwrap();
    }
    let records = persist(&store);
    assert_eq!(records.len(), 6);
    let reopened = restore(&records).unwrap();
    assert_eq!(reopened.head(), store.head());
    assert_eq!(reopened.snapshot(), store.snapshot());
    assert_eq!(reopened.all_hashes(), store.all_hashes());
}

#[test]
fn restore_refuses_bad_records() {
    let mut store = Store::new();
    for h in 30..33 {
        store.insert(sample(h)).unwrap();
    }
    let mut records = persist(&store);
    records[1].pop();
    assert!(matches!(restore(&records), Err(StorageError::Corrupt)));
    let mut records = persist(&store);
    records.remove(1);
    assert!(matches!(restore(&records), Err(StorageError::Corrupt)));
    assert_eq!(restore(&Vec::new()).unwrap().len(), 0);
}

#[test]
fn head_marker_must_agree() {

    let mut store = Store::new();
    for h in 30..33 {
        store.insert(sample(h)).unwrap();
    }
    let records = persist(&store);
    assert_eq!(head_marker(&store), Some(32));
    assert_eq!(restore_with_head(&records, Some(32)).unwrap().snapshot(), store.snapshot());
    assert!(matches!(restore_with_head(&records, Some(31)), Err(StorageError::Corrupt)));
    assert!(matches!(restore_with_head(&records, None), Err(StorageError::Corrupt)));
    assert_eq!(restore_with_head(&Vec::new(), None).unwrap().len(), 0);
    assert_eq!(head_marker(&Store::new()), None);
}

#[test]
fn unknown_builder_code_is_refused() {
    let mut r = encode_block(&sample(9));
    r[112] = 18;
    assert_eq!(decode_block(&r), None);
    r[112] = 17;
    assert_eq!(decode_block(&r).unwrap().builder, BuilderIdentity::Local);
}
