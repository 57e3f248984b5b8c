//! The block record kept by the store.
use vstd::prelude::*;
use crate::utils::BuilderIdentity;

verus! {

/// A fixed-width block identifier (32 bytes).
#[derive(Clone, Copy, Debug, PartialEq, Eq, Hash)]
pub struct BlockHash {
    pub bytes: [u8; 32],
}

/// One block as the index keeps it: its place in the chain, and the metadata
/// the display layer reads.
#[derive(Clone, Copy, Debug, PartialEq, Eq)]
pub struct Block {
    pub height: u64,
    pub hash: BlockHash,
    pub parent_hash: BlockHash,
    pub timestamp: u64,
    pub transaction_count: u64,
    pub gas_used: u64,
    pub gas_limit: u64,
    pub base_fee_per_gas: u64,
    pub builder: BuilderIdentity,
}

/// Whether two hashes are the same identifier.
pub fn same_hash(a: &BlockHash, b: &BlockHash) -> (r: bool)
    ensures
        r == (*a == *b),
{
    let mut i: usize = 0;
    while i < 32
        invariant
            i <= 32,
            forall|j: int| 0 <= j < i ==> a.bytes@[j] == b.bytes@[j],
        decreases 32 - i,
    {
        if a.bytes[i] != b.bytes[i] {
            return false;
        }
        i = i + 1;
    }
    proof {
        assert(a.bytes@ =~= b.bytes@);
        vstd::array::axiom_array_ext_equal(a.bytes, b.bytes);
    }
    true
}

} // verus!
