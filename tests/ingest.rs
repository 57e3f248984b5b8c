use blocktrail::block::{Block, BlockHash};
use blocktrail::utils::BuilderIdentity;
use blocktrail::ingest::{
    apply_reorg, backoff_delay, classify, Action, Engine, Event, IngestConfig, Notice, Phase, WalkBack,
    WalkStep,
};
use blocktrail::store::{StorageError, Store};

fn hash(tag: u8) -> BlockHash {
    let mut bytes = [0u8; 32];
    bytes[0] = tag;
    bytes[1] = 0xab;
    BlockHash { bytes }
}

fn block(height: u64, tag: u8, parent: u8) -> Block {
    Block {
        height,
        hash: hash(tag),
        parent_hash: hash(parent),
        timestamp: 1_700_000_000 + height,
        transaction_count: 3,
        gas_used: 21_000,
        gas_limit: 30_000_000,
        base_fee_per_gas: 9,
        builder: BuilderIdentity::Local,
    }
}

fn synced(config: IngestConfig) -> Engine {
    let mut engine = Engine::new(config);
    let mut scratch = Store::new();
    assert_eq!(engine.step(&mut scratch, Event::Connected), Action::AwaitHead);
    assert_eq!(engine.phase(), Phase::Synced);
    engine
}

const A: u8 = 0xa;
const B: u8 = 0xb;
const C: u8 = 0xc;

#[test]
fn reorg_at_tip_replaces_sibling() {
    let mut store = Store::new();
    store.insert(block(10, A, 9)).unwrap();
    store.insert(block(11, B, A)).unwrap();
    let mut engine = synced(IngestConfig::standard());
    let c = block(11, C, A);
    assert_eq!(classify(&store, &c), Notice::Diverges);
    assert_eq!(engine.step(&mut store, Event::NewHead(c)), Action::AwaitHead);
    assert_eq!(engine.phase(), Phase::Synced);
    assert_eq!(store.head(), Some(c));
    assert_eq!(store.get_by_height(11), Some(c));
    assert_eq!(store.get_by_hash(&hash(B)), None);
    assert_eq!(store.get_by_height(10), Some(block(10, A, 9)));
}

#[test]
fn walk_back_exhaustion_reseeds_from_head() {
    let mut store = Store::new();
    store.insert(block(10, A, 9)).unwrap();
    store.insert(block(11, B, A)).unwrap();
    let config = IngestConfig { max_walk_back: 2, ..IngestConfig::standard() };
    let mut engine = synced(config);
    let h = block(20, 0x20, 0x19);
    assert_eq!(engine.step(&mut store, Event::NewHead(h)), Action::FetchAncestor(19));
    assert_eq!(engine.phase(), Phase::Reconciling);
    assert_eq!(store.len(), 2);
    let parent = block(19, 0x19, 0x18);
    assert_eq!(engine.step(&mut store, Event::Fetched(parent)), Action::AwaitHead);
    assert_eq!(engine.phase(), Phase::Synced);
    assert_eq!(store.snapshot(), vec![h]);
}

#[test]
fn catching_up_walks_back_to_head() {
    let mut store = Store::new();
    store.insert(block(10, A, 9)).unwrap();
    let mut engine = synced(IngestConfig::standard());
    let b12 = block(12, 12, 11);
    let b11 = block(11, 11, A);
    assert_eq!(engine.step(&mut store, Event::NewHead(b12)), Action::FetchAncestor(11));
    assert_eq!(engine.step(&mut store, Event::Fetched(b11)), Action::AwaitHead);
    assert_eq!(store.snapshot(), vec![block(10, A, 9), b11, b12]);
}

#[test]
fn linear_extension_and_duplicates() {
    let mut store = Store::new();
    let mut engine = synced(IngestConfig::standard());
    let first = block(10, A, 9);
    assert_eq!(classify(&store, &first), Notice::Extends);
    assert_eq!(engine.step(&mut store, Event::NewHead(first)), Action::AwaitHead);
    let second = block(11, B, A);
    assert_eq!(engine.step(&mut store, Event::NewHead(second)), Action::AwaitHead);
    assert_eq!(classify(&store, &second), Notice::Duplicate);
    assert_eq!(engine.step(&mut store, Event::NewHead(second)), Action::AwaitHead);
    assert_eq!(store.snapshot(), vec![first, second]);
}

#[test]
fn mismatched_ancestor_counts_as_failure_then_reseeds() {
    let mut store = Store::new();
    store.insert(block(10, A, 9)).unwrap();
    let config = IngestConfig { max_fetch_retries: 1, ..IngestConfig::standard() };
    let mut engine = synced(config);
    let h = block(13, 13, 12);
    assert_eq!(engine.step(&mut store, Event::NewHead(h)), Action::FetchAncestor(12));
    assert_eq!(engine.step(&mut store, Event::Fetched(block(12, 99, 11))), Action::FetchAncestor(12));
    assert_eq!(engine.step(&mut store, Event::FetchFailed), Action::AwaitHead);
    assert_eq!(store.snapshot(), vec![h]);
}

#[test]
fn connection_failures_back_off_exponentially() {
    let mut store = Store::new();
    let mut engine = Engine::new(IngestConfig::standard());
    assert_eq!(engine.step(&mut store, Event::ConnectFailed), Action::Backoff(500));
    assert_eq!(engine.step(&mut store, Event::ConnectFailed), Action::Backoff(1000));
    assert_eq!(engine.step(&mut store, Event::ConnectionLost), Action::Backoff(2000));
    assert_eq!(engine.step(&mut store, Event::Connected), Action::AwaitHead);
    assert_eq!(engine.step(&mut store, Event::ConnectionLost), Action::Backoff(500));
    assert_eq!(engine.phase(), Phase::Connecting);
}

#[test]
fn shutdown_is_final() {
    let mut store = Store::new();
    let mut engine = synced(IngestConfig::standard());
    assert_eq!(engine.step(&mut store, Event::ShutdownRequested), Action::Stop);
    assert_eq!(engine.step(&mut store, Event::NewHead(block(1, 1, 0))), Action::Stop);
    assert_eq!(engine.phase(), Phase::Stopped);
    assert_eq!(store.len(), 0);
}

#[test]
fn backoff_delay_doubles_up_to_cap() {
    assert_eq!(backoff_delay(500, 30_000, 0), 500);
    assert_eq!(backoff_delay(500, 30_000, 1), 1000);
    assert_eq!(backoff_delay(500, 30_000, 5), 16_000);
    assert_eq!(backoff_delay(500, 30_000, 6), 30_000);
    assert_eq!(backoff_delay(500, 30_000, u32::MAX), 30_000);
    assert_eq!(backoff_delay(50_000, 30_000, 0), 30_000);
    assert_eq!(backoff_delay(u64::MAX / 2 + 1, u64::MAX, 1), u64::MAX);
}

#[test]
fn walk_steps_and_reorg_application() {
    let mut store = Store::new();
    for (h, t, p) in [(10, A, 9), (11, B, A), (12, 0x12, B)] {
        store.insert(block(h, t, p)).unwrap();
    }
    let mut walk = WalkBack::start(block(13, 0x33, 0x32));
    assert_eq!(walk.next_step(&store, 8), WalkStep::Fetch(12));
    assert!(!walk.accept(block(11, 0x32, 0x31)));
    assert!(walk.accept(block(12, 0x32, B)));
    assert_eq!(walk.len(), 2);
    assert_eq!(walk.next_step(&store, 8), WalkStep::Found(11));
    assert_eq!(apply_reorg(&mut store, 10, &walk), Err(StorageError::Gap { height: 12, head: 10 }));
    assert_eq!(apply_reorg(&mut store, 3, &walk), Err(StorageError::Missing { height: 3 }));
    assert_eq!(apply_reorg(&mut store, 11, &walk), Ok(()));
    assert_eq!(
        store.all_hashes(),
        vec![hash(A), hash(B), hash(0x32), hash(0x33)]
    );
    assert_eq!(walk.head(), block(13, 0x33, 0x32));
}

#[test]
fn standard_config_values() {
    let c = IngestConfig::standard();
    assert_eq!(c.max_walk_back, 64);
    assert_eq!(c.max_fetch_retries, 3);
    assert_eq!(c.backoff_base_ms, 500);
    assert_eq!(c.backoff_max_ms, 30_000);
}
