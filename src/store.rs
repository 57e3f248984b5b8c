//! The storage engine: a contiguous window of blocks, addressed by height and
//! by hash, whose only mutations are `insert`, `rollback_to` and `reseed`.
use vstd::prelude::*;
use crate::block::{Block, BlockHash, same_hash};

verus! {

/// Why a storage operation was refused.
#[derive(Clone, Copy, Debug, PartialEq, Eq, Structural)]
pub enum StorageError {
    /// The block would leave a gap above the current head.
    Gap { height: u64, head: u64 },
    /// The block lies more than one height below the lowest retained height.
    BelowWindow { height: u64, lowest: u64 },
    /// The requested height is not held by the store.
    Missing { height: u64 },
    /// Persisted records do not form a contiguous window.
    Corrupt,
    /// The backing medium failed.
    Io,
}

/// Whether a sequence of blocks is a window of consecutive heights.
pub open spec fn contiguous(s: Seq<Block>) -> bool {
    forall|i: int| 0 <= i < s.len() ==> #[trigger] s[i].height == s[0].height + i
}

/// Whether height `h` lies inside the window `s`.
pub open spec fn holds_height(s: Seq<Block>, h: int) -> bool {
    s.len() > 0 && s[0].height <= h < s[0].height + s.len()
}

/// The block stored at height `h`, if any.
pub open spec fn block_at(s: Seq<Block>, h: int) -> Option<Block> {
    if holds_height(s, h) {
        Some(s[h - s[0].height])
    } else {
        None
    }
}

/// The head of the window: its highest block.
pub open spec fn head_of(s: Seq<Block>) -> Option<Block> {
    if s.len() == 0 {
        None
    } else {
        Some(s.last())
    }
}

/// The hashes of a window, in ascending height order.
pub open spec fn hashes_of(s: Seq<Block>) -> Seq<BlockHash> {
    s.map_values(|b: Block| b.hash)
}

/// The error `insert` gives for `b` on window `s`, if it gives one.
pub open spec fn insert_error(s: Seq<Block>, b: Block) -> Option<StorageError> {
    if s.len() == 0 {
        None
    } else if b.height > s.last().height + 1 {
        Some(StorageError::Gap { height: b.height, head: s.last().height })
    } else if b.height + 1 < s[0].height {
        Some(StorageError::BelowWindow { height: b.height, lowest: s[0].height })
    } else {
        None
    }
}

/// The window after a successful `insert` of `b`: the block becomes the whole
/// window of an empty store, extends the window by one above or below, or
/// replaces the block at its height.
pub open spec fn inserted(s: Seq<Block>, b: Block) -> Seq<Block> {
    if s.len() == 0 {
        seq![b]
    } else if b.height == s.last().height + 1 {
        s.push(b)
    } else if b.height + 1 == s[0].height {
        seq![b] + s
    } else {
        s.update(b.height - s[0].height, b)
    }
}

/// The window after `rollback_to(h)`, where `h` is held: every block above `h`
/// is dropped.
pub open spec fn rolled_back(s: Seq<Block>, h: int) -> Seq<Block> {
    if s.len() > 0 && h >= s.last().height {
        s
    } else {
        s.subrange(0, h - s[0].height + 1)
    }
}

/// Whether `rollback_to(h)` succeeds on window `s`.
pub open spec fn can_roll_back(s: Seq<Block>, h: int) -> bool {
    s.len() > 0 && h >= s[0].height
}

/// The window after inserting `bs` one by one, in order, into `s`.
pub open spec fn insert_all(s: Seq<Block>, bs: Seq<Block>) -> Seq<Block>
    decreases bs.len(),
{
    if bs.len() == 0 {
        s
    } else {
        inserted(insert_all(s, bs.drop_last()), bs.last())
    }
}

/// Whether `c` is a linear chain of distinct blocks: consecutive heights,
/// each block the child of the one before, no hash twice.
pub open spec fn linear_chain(c: Seq<Block>) -> bool {
    &&& contiguous(c)
    &&& forall|i: int| 0 < i < c.len() ==> #[trigger] c[i].parent_hash == c[i - 1].hash
    &&& forall|i: int, j: int| 0 <= i < c.len() && 0 <= j < c.len() && c[i].hash == c[j].hash ==> i == j
}

/// Inserting a linear chain block by block into an empty store: every insert
/// succeeds, the store then holds exactly the chain, the head is the last
/// block inserted, each block is found at its height, and each block is the
/// lowest stored block with its hash (so a lookup by hash returns it).
pub proof fn law_linear_chain(chain: Seq<Block>)
    requires
        linear_chain(chain),
    ensures
        forall|i: int| 0 <= i < chain.len() ==> insert_error(
            #[trigger] insert_all(Seq::empty(), chain.subrange(0, i)),
            chain[i],
        ) is None,
        insert_all(Seq::empty(), chain) == chain,
        chain.len() > 0 ==> head_of(insert_all(Seq::empty(), chain)) == Some(chain.last()),
        forall|i: int| 0 <= i < chain.len() ==> block_at(chain, #[trigger] chain[i].height as int) == Some(chain[i]),
        forall|i: int, j: int|
            0 <= i < chain.len() && 0 <= j < i ==> (#[trigger] chain[j]).hash != (#[trigger] chain[i]).hash,
{
    lemma_insert_all_prefixes(chain, chain.len() as int);
    assert(chain.subrange(0, chain.len() as int) =~= chain);
}

proof fn lemma_insert_all_prefixes(chain: Seq<Block>, n: int)
    requires
        contiguous(chain),
        0 <= n <= chain.len(),
    ensures
        insert_all(Seq::empty(), chain.subrange(0, n)) == chain.subrange(0, n),
        forall|i: int| 0 <= i < n ==> insert_error(
            #[trigger] insert_all(Seq::empty(), chain.subrange(0, i)),
            chain[i],
        ) is None,
    decreases n,
{
    if n > 0 {
        lemma_insert_all_prefixes(chain, n - 1);
        let p = chain.subrange(0, n);
        assert(p.drop_last() =~= chain.subrange(0, n - 1));
        let q = chain.subrange(0, n - 1);
        assert(insert_all(Seq::empty(), p) == inserted(q, chain[n - 1]));
        if n == 1 {
            assert(inserted(q, chain[0]) =~= p);
        } else {
            assert(q.last() == chain[n - 2]);
            assert(chain[n - 2].height == chain[0].height + n - 2);
            assert(chain[n - 1].height == chain[0].height + n - 1);
            assert(q.push(chain[n - 1]) =~= p);
        }
    }
}

/// Inserting the same block twice leaves the store as the first insert left
/// it; when the first insert is refused, so is the second, with the same
/// error and no change.
pub proof fn law_insert_idempotent(s: Seq<Block>, b: Block)
    requires
        contiguous(s),
    ensures
        insert_error(s, b) is None ==> insert_error(inserted(s, b), b) is None
            && inserted(inserted(s, b), b) == inserted(s, b),
{
    if insert_error(s, b) is None {
        let t = inserted(s, b);
        if s.len() == 0 {
            assert(t[0].height == b.height);
            assert(t.update(0, b) =~= t);
        } else if b.height == s.last().height + 1 {
            assert(t.last() == b);
            assert(t[0] == s[0]);
            assert(t.update(b.height - t[0].height, b) =~= t);
        } else if b.height + 1 == s[0].height {
            assert(t[0] == b);
            assert(t.last() == s.last());
            assert(s[s.len() - 1].height == s[0].height + s.len() - 1);
            assert(t.update(0, b) =~= t);
        } else {
            let k = b.height - s[0].height;
            assert(s[s.len() - 1].height == s[0].height + s.len() - 1);
            assert(0 <= k < s.len());
            if k == 0 {
                assert(t[0] == b);
            } else {
                assert(t[0] == s[0]);
            }
            assert(t.last().height >= b.height) by {
                assert(t[t.len() - 1].height == s[s.len() - 1].height || t.len() - 1 == k);
            }
            assert(t.update(b.height - t[0].height, b) =~= t);
        }
    }
}

/// Rolling a window back to a held height `k` below the head and then
/// inserting a block at `k + 1` leaves exactly the heights from the lowest up
/// to `k + 1`, with that block as the head.
pub proof fn law_rollback_then_insert(s: Seq<Block>, k: u64, b: Block)
    requires
        contiguous(s),
        holds_height(s, k as int),
        k < s.last().height,
        b.height == k + 1,
    ensures
        can_roll_back(s, k as int),
        insert_error(rolled_back(s, k as int), b) is None,
        inserted(rolled_back(s, k as int), b) == s.subrange(0, k - s[0].height + 1).push(b),
        head_of(inserted(rolled_back(s, k as int), b)) == Some(b),
        forall|h: int| #[trigger]
            holds_height(inserted(rolled_back(s, k as int), b), h) <==> s[0].height <= h <= k + 1,
{
    let r = rolled_back(s, k as int);
    assert(r =~= s.subrange(0, k - s[0].height + 1));
    assert(r.last().height == k);
    let t = inserted(r, b);
    assert(t =~= r.push(b));
    assert(t[0] == s[0]);
}

/// Every hash that an enumeration of a well-formed window yields belongs to a
/// block held at its own height: a reader never meets a hash whose height is
/// missing from the height index.
pub proof fn law_hashes_resolve(s: Seq<Block>)
    requires
        contiguous(s),
    ensures
        forall|i: int| 0 <= i < hashes_of(s).len() ==> holds_height(s, #[trigger] s[i].height as int)
            && block_at(s, s[i].height as int) == Some(s[i]) && hashes_of(s)[i] == s[i].hash,
{
}

/// An indexed window of blocks.
pub struct Store {
    blocks: Vec<Block>,
}

impl View for Store {
    type V = Seq<Block>;

    closed spec fn view(&self) -> Seq<Block> {
        self.blocks@
    }
}

impl Store {
    /// The store's invariant: its heights are contiguous.
    pub open spec fn wf(&self) -> bool {
        contiguous(self@)
    }

    /// An empty store.
    pub fn new() -> (r: Store)
        ensures
            r.wf(),
            r@ == Seq::<Block>::empty(),
    {
        Store { blocks: Vec::new() }
    }

    /// Rebuilds a store from persisted blocks, in ascending height order.
    pub fn from_blocks(blocks: Vec<Block>) -> (r: Result<Store, StorageError>)
        ensures
            contiguous(blocks@) ==> (r is Ok && r->Ok_0@ == blocks@ && r->Ok_0.wf()),
            !contiguous(blocks@) ==> r == Err::<Store, StorageError>(StorageError::Corrupt),
    {
        let n = blocks.len();
        if n == 0 {
            return Ok(Store { blocks });
        }
        let first = blocks[0].height;
        let mut i: usize = 0;
        while i < n
            invariant
                n == blocks@.len(),
                n > 0,
                first == blocks@[0].height,
                i <= n,
                forall|j: int| 0 <= j < i ==> #[trigger] blocks@[j].height == first + j,
            decreases n - i,
        {
            let h = blocks[i].height;
            if h < first || h - first != i as u64 {
                return Err(StorageError::Corrupt);
            }
            i = i + 1;
        }
        Ok(Store { blocks })
    }

    /// The stored blocks in ascending height order, for persisting.
    pub fn snapshot(&self) -> (r: Vec<Block>)
        ensures
            r@ == self@,
    {
        self.blocks.clone()
    }

    /// The number of stored blocks.
    pub fn len(&self) -> (r: usize)
        ensures
            r == self@.len(),
    {
        self.blocks.len()
    }

    /// The current canonical tip, or `None` when the store is empty.
    pub fn head(&self) -> (r: Option<Block>)
        ensures
            r == head_of(self@),
    {
        let n = self.blocks.len();
        if n == 0 {
            None
        } else {
            Some(self.blocks[n - 1])
        }
    }

    /// The block at `height`, if held.
    pub fn get_by_height(&self, height: u64) -> (r: Option<Block>)
        requires
            self.wf(),
        ensures
            r == block_at(self@, height as int),
    {
        let n = self.blocks.len();
        if n == 0 {
            return None;
        }
        let first = self.blocks[0].height;
        if height < first {
            return None;
        }
        let offset = height - first;
        if offset as usize as u64 == offset && (offset as usize) < n {
            Some(self.blocks[offset as usize])
        } else {
            None
        }
    }

    /// The lowest stored block whose hash is `hash`, if any.
    pub fn get_by_hash(&self, hash: &BlockHash) -> (r: Option<Block>)
        ensures
            match r {
                Some(b) => exists|i: int|
                    0 <= i < self@.len() && self@[i] == b && b.hash == *hash && forall|j: int|
                        0 <= j < i ==> (#[trigger] self@[j]).hash != *hash,
                None => forall|i: int| 0 <= i < self@.len() ==> (#[trigger] self@[i]).hash != *hash,
            },
    {
        let n = self.blocks.len();
        let mut i: usize = 0;
        while i < n
            invariant
                n == self@.len(),
                i <= n,
                forall|j: int| 0 <= j < i ==> (#[trigger] self@[j]).hash != *hash,
            decreases n - i,
        {
            if same_hash(&self.blocks[i].hash, hash) {
                return Some(self.blocks[i]);
            }
            i = i + 1;
        }
        None
    }

    /// Every stored hash, in ascending height order.
    pub fn all_hashes(&self) -> (r: Vec<BlockHash>)
        ensures
            r@ == hashes_of(self@),
    {
        let n = self.blocks.len();
        let mut r: Vec<BlockHash> = Vec::new();
        let mut i: usize = 0;
        while i < n
            invariant
                n == self@.len(),
                i <= n,
                r@ == hashes_of(self@.subrange(0, i as int)),
            decreases n - i,
        {
            proof {
                assert(self@.subrange(0, i + 1) =~= self@.subrange(0, i as int).push(self@[i as int]));
            }
            r.push(self.blocks[i].hash);
            i = i + 1;
        }
        proof {
            assert(self@.subrange(0, n as int) =~= self@);
        }
        r
    }
    /// Adds `block` at its height, overwriting what stood there; the block
    /// becomes the head when it extends the window by one above, and the
    /// lowest block when it extends it by one below.
    pub fn insert(&mut self, block: Block) -> (r: Result<(), StorageError>)
        requires
            old(self).wf(),
        ensures
            final(self).wf(),
            match insert_error(old(self)@, block) {
                Some(e) => r == Err::<(), StorageError>(e) && final(self)@ == old(self)@,
                None => r == Ok::<(), StorageError>(()) && final(self)@ == inserted(old(self)@, block),
            },
    {
        let n = self.blocks.len();
        if n == 0 {
            self.blocks.push(block);
            return Ok(());
        }
        let first = self.blocks[0].height;
        let head = self.blocks[n - 1].height;
        if block.height > head && block.height - head > 1 {
            return Err(StorageError::Gap { height: block.height, head });
        }
        if block.height < first && first - block.height > 1 {
            return Err(StorageError::BelowWindow { height: block.height, lowest: first });
        }
        if block.height > head {
            self.blocks.push(block);
        } else if block.height < first {
            self.blocks.insert(0, block);
            proof {
                assert(self.blocks@ =~= seq![block] + old(self)@);
            }
        } else {
            let offset = (block.height - first) as usize;
            self.blocks.set(offset, block);
        }
        Ok(())
    }

    /// Discards every block above `height`, which becomes the head; nothing
    /// changes when `height` is at or above the head.
    pub fn rollback_to(&mut self, height: u64) -> (r: Result<(), StorageError>)
        requires
            old(self).wf(),
        ensures
            final(self).wf(),
            can_roll_back(old(self)@, height as int) ==> r == Ok::<(), StorageError>(())
                && final(self)@ == rolled_back(old(self)@, height as int),
            !can_roll_back(old(self)@, height as int) ==> r == Err::<(), StorageError>(
                StorageError::Missing { height },
            ) && final(self)@ == old(self)@,
    {
        let n = self.blocks.len();
        if n == 0 {
            return Err(StorageError::Missing { height });
        }
        let first = self.blocks[0].height;
        if height < first {
            return Err(StorageError::Missing { height });
        }
        let head = self.blocks[n - 1].height;
        if height >= head {
            return Ok(());
        }
        let keep = (height - first + 1) as usize;
        self.blocks.truncate(keep);
        Ok(())
    }

    /// Seeds the store with `block`: it is inserted where `insert` takes
    /// it, and otherwise the window starts again from it alone. Either way the
    /// block is stored and is the head or below it.
    pub fn insert_or_reseed(&mut self, block: Block)
        requires
            old(self).wf(),
        ensures
            final(self).wf(),
            final(self)@ == (if insert_error(old(self)@, block) is None {
                inserted(old(self)@, block)
            } else {
                seq![block]
            }),
            block_at(final(self)@, block.height as int) == Some(block),
    {
        let ghost before = self@;
        match self.insert(block) {
            Ok(()) => {
                proof {
                    let s = before;
                    let t = self@;
                    if s.len() > 0 {
                        assert(s[s.len() - 1].height == s[0].height + s.len() - 1);
                        if block.height == s.last().height + 1 {
                            assert(t[0] == s[0]);
                        } else if block.height + 1 == s[0].height {
                            assert(t[0] == block);
                        } else {
                            let k = block.height - s[0].height;
                            if k == 0 {
                                assert(t[0] == block);
                            } else {
                                assert(t[0] == s[0]);
                            }
                        }
                    }
                }
            },
            Err(_) => {
                self.reseed(block);
            },
        }
    }

    /// Drops the whole window and starts it again from `block` alone.
    pub fn reseed(&mut self, block: Block)
        ensures
            final(self).wf(),
            final(self)@ == seq![block],
    {
        self.blocks = Vec::new();
        self.blocks.push(block);
        proof {
            assert(self.blocks@ =~= seq![block]);
        }
    }
}

} // verus!
