//! The persisted form of a block: a fixed-width record of little-endian
//! integers and raw hash bytes.
use vstd::prelude::*;
use crate::block::{Block, BlockHash};
use crate::utils::BuilderIdentity;
use crate::store::{Store, StorageError, contiguous, head_of};

verus! {

/// The length of one encoded block record.
pub const RECORD_LEN: usize = 113;

/// The eight little-endian bytes of `v`.
pub open spec fn le_bytes(v: u64) -> Seq<u8> {
    seq![
        v as u8,
        (v >> 8u64) as u8,
        (v >> 16u64) as u8,
        (v >> 24u64) as u8,
        (v >> 32u64) as u8,
        (v >> 40u64) as u8,
        (v >> 48u64) as u8,
        (v >> 56u64) as u8,
    ]
}

/// The integer whose little-endian bytes start at `at` in `s`.
pub open spec fn le_value(s: Seq<u8>, at: int) -> u64 {
    (s[at] as u64) | ((s[at + 1] as u64) << 8u64) | ((s[at + 2] as u64) << 16u64) | ((s[at + 3] as u64)
        << 24u64) | ((s[at + 4] as u64) << 32u64) | ((s[at + 5] as u64) << 40u64) | ((s[at + 6] as u64)
        << 48u64) | ((s[at + 7] as u64) << 56u64)
}

/// The byte a builder identity is stored as.
pub open spec fn builder_code(b: BuilderIdentity) -> u8 {
    match b {
        BuilderIdentity::Beaver => 0,
        BuilderIdentity::Titan => 1,
        BuilderIdentity::Rsync => 2,
        BuilderIdentity::Penguin => 3,
        BuilderIdentity::Flashbots => 4,
        BuilderIdentity::Nethermind => 5,
        BuilderIdentity::Jet => 6,
        BuilderIdentity::Loki => 7,
        BuilderIdentity::SixtyNine => 8,
        BuilderIdentity::BuildAI => 9,
        BuilderIdentity::Beelder => 10,
        BuilderIdentity::Blocksmith => 11,
        BuilderIdentity::Bob => 12,
        BuilderIdentity::Boba => 13,
        BuilderIdentity::Manifold => 14,
        BuilderIdentity::Bitget => 15,
        BuilderIdentity::Btcs => 16,
        BuilderIdentity::Local => 17,
    }
}

fn code_of_builder(b: BuilderIdentity) -> (r: u8)
    ensures
        r == builder_code(b),
{
    match b {
        BuilderIdentity::Beaver => 0,
        BuilderIdentity::Titan => 1,
        BuilderIdentity::Rsync => 2,
        BuilderIdentity::Penguin => 3,
        BuilderIdentity::Flashbots => 4,
        BuilderIdentity::Nethermind => 5,
        BuilderIdentity::Jet => 6,
        BuilderIdentity::Loki => 7,
        BuilderIdentity::SixtyNine => 8,
        BuilderIdentity::BuildAI => 9,
        BuilderIdentity::Beelder => 10,
        BuilderIdentity::Blocksmith => 11,
        BuilderIdentity::Bob => 12,
        BuilderIdentity::Boba => 13,
        BuilderIdentity::Manifold => 14,
        BuilderIdentity::Bitget => 15,
        BuilderIdentity::Btcs => 16,
        BuilderIdentity::Local => 17,
    }
}

fn builder_of_code(c: u8) -> (r: Option<BuilderIdentity>)
    ensures
        (r is Some) == (c < 18),
        r is Some ==> builder_code(r->Some_0) == c,
{
    match c {
        0 => Some(BuilderIdentity::Beaver),
        1 => Some(BuilderIdentity::Titan),
        2 => Some(BuilderIdentity::Rsync),
        3 => Some(BuilderIdentity::Penguin),
        4 => Some(BuilderIdentity::Flashbots),
        5 => Some(BuilderIdentity::Nethermind),
        6 => Some(BuilderIdentity::Jet),
        7 => Some(BuilderIdentity::Loki),
        8 => Some(BuilderIdentity::SixtyNine),
        9 => Some(BuilderIdentity::BuildAI),
        10 => Some(BuilderIdentity::Beelder),
        11 => Some(BuilderIdentity::Blocksmith),
        12 => Some(BuilderIdentity::Bob),
        13 => Some(BuilderIdentity::Boba),
        14 => Some(BuilderIdentity::Manifold),
        15 => Some(BuilderIdentity::Bitget),
        16 => Some(BuilderIdentity::Btcs),
        17 => Some(BuilderIdentity::Local),
        _ => None,
    }
}

/// The record of a block: height, hash, parent hash, timestamp, transaction
/// count, gas used, gas limit, base fee and builder, in that order.
pub open spec fn block_bytes(b: Block) -> Seq<u8> {
    le_bytes(b.height) + b.hash.bytes@ + b.parent_hash.bytes@ + le_bytes(b.timestamp) + le_bytes(
        b.transaction_count,
    ) + le_bytes(b.gas_used) + le_bytes(b.gas_limit) + le_bytes(b.base_fee_per_gas) + seq![
        builder_code(b.builder),
    ]
}

proof fn lemma_le_value_of_bytes(v: u64)
    ensures
        le_value(le_bytes(v), 0) == v,
{
    let s = le_bytes(v);
    assert(((v as u8) as u64) | ((((v >> 8u64) as u8) as u64) << 8u64) | ((((v >> 16u64) as u8) as u64)
        << 16u64) | ((((v >> 24u64) as u8) as u64) << 24u64) | ((((v >> 32u64) as u8) as u64) << 32u64)
        | ((((v >> 40u64) as u8) as u64) << 40u64) | ((((v >> 48u64) as u8) as u64) << 48u64) | ((((v
        >> 56u64) as u8) as u64) << 56u64) == v) by (bit_vector);
}

proof fn lemma_bytes_of_le_value(s: Seq<u8>, at: int)
    requires
        0 <= at,
        at + 8 <= s.len(),
    ensures
        le_bytes(le_value(s, at)) == s.subrange(at, at + 8),
{
    let b0 = s[at];
    let b1 = s[at + 1];
    let b2 = s[at + 2];
    let b3 = s[at + 3];
    let b4 = s[at + 4];
    let b5 = s[at + 5];
    let b6 = s[at + 6];
    let b7 = s[at + 7];
    let v = le_value(s, at);
    assert(v == (b0 as u64) | ((b1 as u64) << 8u64) | ((b2 as u64) << 16u64) | ((b3 as u64) << 24u64)
        | ((b4 as u64) << 32u64) | ((b5 as u64) << 40u64) | ((b6 as u64) << 48u64) | ((b7 as u64)
        << 56u64));
    assert(v as u8 == b0 && (v >> 8u64) as u8 == b1 && (v >> 16u64) as u8 == b2 && (v >> 24u64) as u8
        == b3 && (v >> 32u64) as u8 == b4 && (v >> 40u64) as u8 == b5 && (v >> 48u64) as u8 == b6 && (v
        >> 56u64) as u8 == b7) by (bit_vector)
        requires
            v == (b0 as u64) | ((b1 as u64) << 8u64) | ((b2 as u64) << 16u64) | ((b3 as u64) << 24u64)
                | ((b4 as u64) << 32u64) | ((b5 as u64) << 40u64) | ((b6 as u64) << 48u64) | ((b7
                as u64) << 56u64),
    ;
    assert(le_bytes(v) =~= s.subrange(at, at + 8));
}

fn push_u64(out: &mut Vec<u8>, v: u64)
    ensures
        final(out)@ == old(out)@ + le_bytes(v),
{
    out.push(v as u8);
    out.push((v >> 8u64) as u8);
    out.push((v >> 16u64) as u8);
    out.push((v >> 24u64) as u8);
    out.push((v >> 32u64) as u8);
    out.push((v >> 40u64) as u8);
    out.push((v >> 48u64) as u8);
    out.push((v >> 56u64) as u8);
    proof {
        assert(final(out)@ =~= old(out)@ + le_bytes(v));
    }
}

fn push_hash(out: &mut Vec<u8>, h: &BlockHash)
    ensures
        final(out)@ == old(out)@ + h.bytes@,
{
    let ghost start = out@;
    let mut i: usize = 0;
    while i < 32
        invariant
            i <= 32,
            out@ == start + h.bytes@.subrange(0, i as int),
        decreases 32 - i,
    {
        out.push(h.bytes[i]);
        i = i + 1;
        proof {
            assert(h.bytes@.subrange(0, i as int) =~= h.bytes@.subrange(0, i - 1).push(h.bytes@[i - 1]));
        }
    }
    proof {
        assert(h.bytes@.subrange(0, 32) =~= h.bytes@);
    }
}

fn read_u64(s: &[u8], at: usize) -> (r: u64)
    requires
        at + 8 <= s@.len(),
    ensures
        r == le_value(s@, at as int),
{
    (s[at] as u64) | ((s[at + 1] as u64) << 8u64) | ((s[at + 2] as u64) << 16u64) | ((s[at + 3] as u64)
        << 24u64) | ((s[at + 4] as u64) << 32u64) | ((s[at + 5] as u64) << 40u64) | ((s[at + 6] as u64)
        << 48u64) | ((s[at + 7] as u64) << 56u64)
}

fn read_hash(s: &[u8], at: usize) -> (r: BlockHash)
    requires
        at <= 40,
        at + 32 <= s@.len(),
    ensures
        r.bytes@ == s@.subrange(at as int, at + 32),
{
    let mut bytes = [0u8; 32];
    let mut i: usize = 0;
    while i < 32
        invariant
            i <= 32,
            at <= 40,
            at + 32 <= s@.len(),
            bytes@.len() == 32,
            forall|j: int| 0 <= j < i ==> bytes@[j] == s@[at + j],
        decreases 32 - i,
    {
        bytes[i] = s[at + i];
        i = i + 1;
    }
    proof {
        assert(bytes@ =~= s@.subrange(at as int, at + 32));
    }
    BlockHash { bytes }
}

/// Encodes a block as its record.
pub fn encode_block(b: &Block) -> (r: Vec<u8>)
    ensures
        r@ == block_bytes(*b),
        r@.len() == RECORD_LEN,
{
    let mut out: Vec<u8> = Vec::new();
    push_u64(&mut out, b.height);
    push_hash(&mut out, &b.hash);
    push_hash(&mut out, &b.parent_hash);
    push_u64(&mut out, b.timestamp);
    push_u64(&mut out, b.transaction_count);
    push_u64(&mut out, b.gas_used);
    push_u64(&mut out, b.gas_limit);
    push_u64(&mut out, b.base_fee_per_gas);
    out.push(code_of_builder(b.builder));
    proof {
        assert(out@ =~= block_bytes(*b));
    }
    out
}

/// Decodes a record; `None` when it is not exactly one record long. Every
/// record of the right length is the encoding of the block returned.
pub fn decode_block(bytes: &[u8]) -> (r: Option<Block>)
    ensures
        (r is Some) == (bytes@.len() == RECORD_LEN && bytes@[112] < 18),
        r is Some ==> block_bytes(r->Some_0) == bytes@,
{
    if bytes.len() != RECORD_LEN {
        return None;
    }
    let builder = match builder_of_code(bytes[112]) {
        Some(b) => b,
        None => {
            return None;
        },
    };
    let b = Block {
        height: read_u64(bytes, 0),
        hash: read_hash(bytes, 8),
        parent_hash: read_hash(bytes, 40),
        timestamp: read_u64(bytes, 72),
        transaction_count: read_u64(bytes, 80),
        gas_used: read_u64(bytes, 88),
        gas_limit: read_u64(bytes, 96),
        base_fee_per_gas: read_u64(bytes, 104),
        builder,
    };
    proof {
        let s = bytes@;
        lemma_bytes_of_le_value(s, 0);
        lemma_bytes_of_le_value(s, 72);
        lemma_bytes_of_le_value(s, 80);
        lemma_bytes_of_le_value(s, 88);
        lemma_bytes_of_le_value(s, 96);
        lemma_bytes_of_le_value(s, 104);
        assert(block_bytes(b) =~= s);
    }
    Some(b)
}

/// Two blocks with the same record are the same block, so decoding a
/// block's record gives that block back.
pub proof fn law_block_record_round_trip(b: Block, r: Block)
    requires
        block_bytes(r) == block_bytes(b),
    ensures
        r == b,
{
    let s = block_bytes(b);
    let t = block_bytes(r);
    lemma_le_value_of_bytes(b.height);
    lemma_le_value_of_bytes(r.height);
    lemma_le_value_of_bytes(b.timestamp);
    lemma_le_value_of_bytes(r.timestamp);
    lemma_le_value_of_bytes(b.transaction_count);
    lemma_le_value_of_bytes(r.transaction_count);
    lemma_le_value_of_bytes(b.gas_used);
    lemma_le_value_of_bytes(r.gas_used);
    lemma_le_value_of_bytes(b.gas_limit);
    lemma_le_value_of_bytes(r.gas_limit);
    lemma_le_value_of_bytes(b.base_fee_per_gas);
    lemma_le_value_of_bytes(r.base_fee_per_gas);
    assert(s.subrange(0, 8) =~= le_bytes(b.height) && t.subrange(0, 8) =~= le_bytes(r.height));
    assert(s.subrange(8, 40) =~= b.hash.bytes@ && t.subrange(8, 40) =~= r.hash.bytes@);
    assert(s.subrange(40, 72) =~= b.parent_hash.bytes@ && t.subrange(40, 72) =~= r.parent_hash.bytes@);
    assert(s.subrange(72, 80) =~= le_bytes(b.timestamp) && t.subrange(72, 80) =~= le_bytes(r.timestamp));
    assert(s.subrange(80, 88) =~= le_bytes(b.transaction_count) && t.subrange(80, 88) =~= le_bytes(
        r.transaction_count,
    ));
    assert(s.subrange(88, 96) =~= le_bytes(b.gas_used) && t.subrange(88, 96) =~= le_bytes(r.gas_used));
    assert(s.subrange(96, 104) =~= le_bytes(b.gas_limit) && t.subrange(96, 104) =~= le_bytes(r.gas_limit));
    assert(s.subrange(104, 112) =~= le_bytes(b.base_fee_per_gas) && t.subrange(104, 112) =~= le_bytes(
        r.base_fee_per_gas,
    ));
    assert(s[112] == builder_code(b.builder) && t[112] == builder_code(r.builder));
    vstd::array::axiom_array_ext_equal(b.hash.bytes, r.hash.bytes);
    vstd::array::axiom_array_ext_equal(b.parent_hash.bytes, r.parent_hash.bytes);
}

/// Whether `d` is the sequence of blocks whose records are `recs`.
pub open spec fn encodes(recs: Seq<Vec<u8>>, d: Seq<Block>) -> bool {
    d.len() == recs.len() && forall|i: int| 0 <= i < d.len() ==> block_bytes(#[trigger] d[i]) == recs[i]@
}

/// Whether persisted records reopen as a store: they encode a window of
/// contiguous heights.
pub open spec fn reopens(recs: Seq<Vec<u8>>) -> bool {
    exists|d: Seq<Block>| encodes(recs, d) && contiguous(d)
}

/// The records to persist for a store: one per block, in ascending height
/// order; the last one is the head.
pub fn persist(store: &Store) -> (r: Vec<Vec<u8>>)
    ensures
        encodes(r@, store@),
{
    let blocks = store.snapshot();
    let mut out: Vec<Vec<u8>> = Vec::new();
    let mut i: usize = 0;
    while i < blocks.len()
        invariant
            blocks@ == store@,
            i <= blocks@.len(),
            out@.len() == i,
            forall|j: int| 0 <= j < i ==> block_bytes(blocks@[j]) == (#[trigger] out@[j])@,
        decreases blocks@.len() - i,
    {
        out.push(encode_block(&blocks[i]));
        i = i + 1;
    }
    out
}

/// Reopens a store from persisted records; `Corrupt` when they do not encode
/// a contiguous window.
pub fn restore(records: &Vec<Vec<u8>>) -> (r: Result<Store, StorageError>)
    ensures
        (r is Ok) == reopens(records@),
        r is Ok ==> encodes(records@, r->Ok_0@) && r->Ok_0.wf(),
        r is Ok ==> forall|d: Seq<Block>| encodes(records@, d) ==> d == r->Ok_0@,
        r is Err ==> r == Err::<Store, StorageError>(StorageError::Corrupt),
{
    let mut blocks: Vec<Block> = Vec::new();
    let mut i: usize = 0;
    while i < records.len()
        invariant
            i <= records@.len(),
            blocks@.len() == i,
            forall|j: int| 0 <= j < i ==> block_bytes(#[trigger] blocks@[j]) == records@[j]@,
        decreases records@.len() - i,
    {
        match decode_block(records[i].as_slice()) {
            Some(b) => blocks.push(b),
            None => {
                proof {
                    assert forall|d: Seq<Block>| encodes(records@, d) implies !contiguous(d) by {
                        assert(block_bytes(d[i as int]) == records@[i as int]@);
                        assert(builder_code(d[i as int].builder) < 18);
                    }
                }
                return Err(StorageError::Corrupt);
            },
        }
        i = i + 1;
    }
    let ghost decoded = blocks@;
    proof {
        assert(encodes(records@, decoded));
        assert forall|d: Seq<Block>| encodes(records@, d) implies d == decoded by {
            assert forall|j: int| 0 <= j < d.len() implies d[j] == decoded[j] by {
                law_block_record_round_trip(d[j], decoded[j]);
            }
            assert(d =~= decoded);
        }
    }
    Store::from_blocks(blocks)
}

/// The height marker of a window's head.
pub open spec fn head_height(s: Seq<Block>) -> Option<u64> {
    match head_of(s) {
        Some(b) => Some(b.height),
        None => None,
    }
}

/// The head-height marker to persist beside the records.
pub fn head_marker(store: &Store) -> (r: Option<u64>)
    ensures
        r == head_height(store@),
{
    match store.head() {
        Some(b) => Some(b.height),
        None => None,
    }
}

/// Reopens a store from persisted records and its head-height marker;
/// `Corrupt` when the records do not encode a contiguous window or the
/// marker disagrees with the head they hold.
pub fn restore_with_head(records: &Vec<Vec<u8>>, marker: Option<u64>) -> (r: Result<Store, StorageError>)
    ensures
        (r is Ok) == (reopens(records@) && forall|d: Seq<Block>| #[trigger] encodes(records@, d) ==> head_height(d) == marker),
        r is Ok ==> encodes(records@, r->Ok_0@) && r->Ok_0.wf() && head_height(r->Ok_0@) == marker,
        r is Err ==> r == Err::<Store, StorageError>(StorageError::Corrupt),
{
    let store = restore(records)?;
    let found = head_marker(&store);
    let agrees = match (found, marker) {
        (Some(a), Some(b)) => a == b,
        (None, None) => true,
        _ => false,
    };
    if agrees {
        Ok(store)
    } else {
        proof {
            assert(encodes(records@, store@));
        }
        Err(StorageError::Corrupt)
    }
}

/// Persisting a store and reopening it from the records gives back the same
/// blocks: the same head, the same heights, the same contents.
pub proof fn law_reopen_round_trip(s: Seq<Block>, recs: Seq<Vec<u8>>, reopened: Seq<Block>)
    requires
        contiguous(s),
        encodes(recs, s),
        encodes(recs, reopened),
    ensures
        reopens(recs),
        reopened == s,
        head_of(reopened) == head_of(s),
{
    assert forall|j: int| 0 <= j < s.len() implies reopened[j] == s[j] by {
        law_block_record_round_trip(s[j], reopened[j]);
    }
    assert(reopened =~= s);
}

} // verus!
