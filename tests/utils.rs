use blocktrail::block::BlockHash;
use blocktrail::utils::{
    etherscan_block_link, etherscan_block_url, etherscan_transaction_url, hash_text, shorten_address_text,
    duration_since_timestamp, elapsed_secs, shorten_address, shorten_hash, AccountAddress, BuilderIdentity,
};

#[test]
fn builder_from_known_tags() {
    assert_eq!(BuilderIdentity::from(b"beaverbuild.org".to_vec()), BuilderIdentity::Beaver);
    assert_eq!(BuilderIdentity::from(b"@@penguinbuild.org".to_vec()), BuilderIdentity::Penguin);
    assert_eq!(BuilderIdentity::from(b"by @builder0x69".to_vec()), BuilderIdentity::SixtyNine);
    assert_eq!(
        BuilderIdentity::from("https://blockbeelder.com \u{1f41d}".as_bytes().to_vec()),
        BuilderIdentity::Beelder
    );
    assert_eq!(
        BuilderIdentity::from(b"Illuminate Dmocrtz Dstrib Prtct".to_vec()),
        BuilderIdentity::Flashbots
    );
}

#[test]
fn builder_from_unknown_or_invalid_tags_is_local() {
    assert_eq!(BuilderIdentity::from(b"someone else".to_vec()), BuilderIdentity::Local);
    assert_eq!(BuilderIdentity::from(Vec::new()), BuilderIdentity::Local);
    assert_eq!(BuilderIdentity::from(vec![0xff, 0xfe, 0x00]), BuilderIdentity::Local);
    assert_eq!(BuilderIdentity::identify(b"beaverbuild.or"), BuilderIdentity::Local);
}

#[test]
fn builder_labels() {
    assert_eq!(BuilderIdentity::Beaver.label(), "beaverbuild");
    assert_eq!(BuilderIdentity::Btcs.label(), "Builder+");
    assert_eq!(BuilderIdentity::Local.label(), "<local>");
    assert_eq!(BuilderIdentity::SixtyNine.label(), "Builder0x69");
}

#[test]
fn elapsed_seconds() {
    assert_eq!(elapsed_secs(1000, 400), 600);
    assert_eq!(elapsed_secs(1000, 1000), 0);
    assert_eq!(elapsed_secs(1000, 2000), 0);
    assert!(duration_since_timestamp(0).as_secs() > 1_600_000_000);
    assert_eq!(duration_since_timestamp(u64::MAX).as_secs(), 0);
}

#[test]
fn shorten_hash_keeps_three_bytes() {
    let mut bytes = [0u8; 32];
    bytes[0] = 0xde;
    bytes[1] = 0xad;
    bytes[2] = 0x0b;
    bytes[3] = 0xef;
    assert_eq!(shorten_hash(&BlockHash { bytes }), "0xdead0b...");
}

#[test]
fn shorten_address_uses_checksum() {
    let bytes = [
        0xd8, 0xda, 0x6b, 0xf2, 0x69, 0x64, 0xaf, 0x9d, 0x7e, 0xed, 0x9e, 0x03, 0xe5, 0x34, 0x15, 0xd3, 0x7a, 0xa9,
        0x60, 0x45,
    ];
    assert_eq!(shorten_address(&AccountAddress { bytes }), "0xd8dA...6045");
}

#[test]
fn etherscan_links() {
    assert_eq!(etherscan_block_link(0), "https://etherscan.io/block/0");
    assert_eq!(etherscan_block_link(19_000_123), "https://etherscan.io/block/19000123");
    assert_eq!(
        etherscan_block_url(u64::MAX).unwrap().as_str(),
        "https://etherscan.io/block/18446744073709551615"
    );
    let mut bytes = [0u8; 32];
    bytes[0] = 0xab;
    bytes[31] = 0x0f;
    let expected = format!("https://etherscan.io/tx/0xab{}0f", "00".repeat(30));
    assert_eq!(etherscan_transaction_url(&BlockHash { bytes }).unwrap().as_str(), expected);
}

#[test]
fn address_text_and_hash_text() {
    assert_eq!(shorten_address_text("0xd8dA6BF26964aF9D7eEd9e03E53415D37aA96045"), "0xd8dA...6045");
    let mut bytes = [0u8; 32];
    bytes[0] = 0x01;
    bytes[31] = 0xfe;
    assert_eq!(hash_text(&BlockHash { bytes }), format!("0x01{}fe", "00".repeat(30)));
    assert_eq!(hash_text(&BlockHash { bytes: [0u8; 32] }), format!("0x{}", "0".repeat(64)));
    assert_eq!(
        etherscan_transaction_url(&BlockHash { bytes: [0u8; 32] }).unwrap().as_str(),
        format!("https://etherscan.io/tx/0x{}", "0".repeat(64))
    );
    assert_eq!(etherscan_block_url(0).unwrap().as_str(), "https://etherscan.io/block/0");
}
