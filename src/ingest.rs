//! The ingestion engine's decisions: how a new remote head is reconciled
//! with the store, and how the engine moves between its phases.
//!
//! Everything here is pure decision making over plain values. The driver that
//! owns the network connection performs each returned [`Action`] and feeds
//! what happened back in as an [`Event`].
use vstd::prelude::*;
use crate::block::{Block, same_hash};
use crate::store::{Store, StorageError, block_at, inserted, rolled_back, holds_height, contiguous};

verus! {

/// How a new head notification relates to what the store holds.
#[derive(Clone, Copy, Debug, PartialEq, Eq, Structural)]
pub enum Notice {
    /// The same block is already stored at its height.
    Duplicate,
    /// The store is empty, or the block extends the head by one.
    Extends,
    /// The block does not sit on the stored head: a reorganisation, or the
    /// engine fell behind.
    Diverges,
}

/// The spec of [`classify`].
pub open spec fn notice_of(s: Seq<Block>, h: Block) -> Notice {
    if block_at(s, h.height as int) is Some && block_at(s, h.height as int)->Some_0.hash == h.hash {
        Notice::Duplicate
    } else if s.len() == 0 || (h.parent_hash == s.last().hash && h.height == s.last().height + 1) {
        Notice::Extends
    } else {
        Notice::Diverges
    }
}

/// Classifies a new head against the store.
pub fn classify(store: &Store, h: &Block) -> (r: Notice)
    requires
        store.wf(),
    ensures
        r == notice_of(store@, *h),
{
    match store.get_by_height(h.height) {
        Some(b) => {
            if same_hash(&b.hash, &h.hash) {
                return Notice::Duplicate;
            }
        },
        None => {},
    }
    match store.head() {
        None => Notice::Extends,
        Some(top) => {
            if same_hash(&h.parent_hash, &top.hash) && top.height < h.height && h.height - top.height == 1 {
                Notice::Extends
            } else {
                Notice::Diverges
            }
        },
    }
}

/// Whether `w` is a walk back from a head: non-empty, heights descending by
/// one, each block the parent of the one before it.
pub open spec fn linked_down(w: Seq<Block>) -> bool {
    &&& w.len() > 0
    &&& forall|i: int| 0 <= i < w.len() ==> #[trigger] w[i].height + i == w[0].height
    &&& forall|i: int| 0 < i < w.len() ==> #[trigger] w[i].hash == w[i - 1].parent_hash
}

/// The blocks of a walk in ascending height order.
pub open spec fn ascending(w: Seq<Block>) -> Seq<Block> {
    Seq::new(w.len(), |i: int| w[w.len() - 1 - i])
}

/// What the walk back does next.
#[derive(Clone, Copy, Debug, PartialEq, Eq, Structural)]
pub enum WalkStep {
    /// The stored block at this height is the common ancestor.
    Found(u64),
    /// The ancestor at this height must be fetched.
    Fetch(u64),
    /// No common ancestor within the depth limit.
    Exhausted,
}

/// The spec of [`WalkBack::next_step`]: the lowest walked block meets the
/// store when its parent is the stored block below it.
pub open spec fn walk_step(s: Seq<Block>, w: Seq<Block>, max_depth: int) -> WalkStep {
    let low = w.last();
    if low.height > 0 && block_at(s, low.height - 1) is Some
        && block_at(s, low.height - 1)->Some_0.hash == low.parent_hash {
        WalkStep::Found((low.height - 1) as u64)
    } else if w.len() >= max_depth || low.height == 0 {
        WalkStep::Exhausted
    } else {
        WalkStep::Fetch((low.height - 1) as u64)
    }
}

/// Whether `b` is the parent of the lowest walked block.
pub open spec fn extends_walk(w: Seq<Block>, b: Block) -> bool {
    b.height + 1 == w.last().height && b.hash == w.last().parent_hash
}

/// The blocks walked back from a new head, newest first.
pub struct WalkBack {
    walked: Vec<Block>,
}

impl View for WalkBack {
    type V = Seq<Block>;

    closed spec fn view(&self) -> Seq<Block> {
        self.walked@
    }
}

impl WalkBack {
    pub open spec fn wf(&self) -> bool {
        linked_down(self@)
    }

    /// A walk that holds only the new head.
    pub fn start(head: Block) -> (r: WalkBack)
        ensures
            r.wf(),
            r@ == seq![head],
    {
        let mut walked: Vec<Block> = Vec::new();
        walked.push(head);
        proof {
            assert(walked@ =~= seq![head]);
        }
        WalkBack { walked }
    }

    /// The head the walk started from.
    pub fn head(&self) -> (r: Block)
        requires
            self.wf(),
        ensures
            r == self@[0],
    {
        self.walked[0]
    }

    /// The number of walked blocks.
    pub fn len(&self) -> (r: usize)
        ensures
            r == self@.len(),
    {
        self.walked.len()
    }

    /// Decides the next step of the walk against the store.
    pub fn next_step(&self, store: &Store, max_depth: u64) -> (r: WalkStep)
        requires
            self.wf(),
            store.wf(),
        ensures
            r == walk_step(store@, self@, max_depth as int),
    {
        let low = self.walked[self.walked.len() - 1];
        if low.height > 0 {
            match store.get_by_height(low.height - 1) {
                Some(b) => {
                    if same_hash(&b.hash, &low.parent_hash) {
                        return WalkStep::Found(low.height - 1);
                    }
                },
                None => {},
            }
        }
        if self.walked.len() as u64 >= max_depth || low.height == 0 {
            WalkStep::Exhausted
        } else {
            WalkStep::Fetch(low.height - 1)
        }
    }

    /// Adds a fetched ancestor when it is the parent of the lowest walked
    /// block; otherwise leaves the walk as it was.
    pub fn accept(&mut self, b: Block) -> (r: bool)
        requires
            old(self).wf(),
        ensures
            final(self).wf(),
            r == extends_walk(old(self)@, b),
            r ==> final(self)@ == old(self)@.push(b),
            !r ==> final(self)@ == old(self)@,
    {
        let low = self.walked[self.walked.len() - 1];
        if b.height < low.height && low.height - b.height == 1 && same_hash(&b.hash, &low.parent_hash) {
            self.walked.push(b);
            true
        } else {
            false
        }
    }
}

/// Whether the walk `w` can replace the tail of `s` above `a`: `a` is held and
/// the lowest walked block sits right on it.
pub open spec fn reorg_fits(s: Seq<Block>, a: int, w: Seq<Block>) -> bool {
    holds_height(s, a) && w.last().height == a + 1
}

/// Replaces every stored block above the common ancestor `ancestor` by the
/// walked blocks, in ascending order. When the walk does not sit on a held
/// ancestor nothing changes.
pub fn apply_reorg(store: &mut Store, ancestor: u64, walk: &WalkBack) -> (r: Result<(), StorageError>)
    requires
        old(store).wf(),
        walk.wf(),
    ensures
        final(store).wf(),
        reorg_fits(old(store)@, ancestor as int, walk@) ==> r == Ok::<(), StorageError>(())
            && final(store)@ == rolled_back(old(store)@, ancestor as int) + ascending(walk@),
        !holds_height(old(store)@, ancestor as int) ==> r == Err::<(), StorageError>(
            StorageError::Missing { height: ancestor },
        ) && final(store)@ == old(store)@,
        holds_height(old(store)@, ancestor as int) && !reorg_fits(old(store)@, ancestor as int, walk@)
            ==> r == Err::<(), StorageError>(
            StorageError::Gap { height: walk@.last().height, head: ancestor },
        ) && final(store)@ == old(store)@,
{
    let n = walk.walked.len();
    let low = walk.walked[n - 1];
    match store.get_by_height(ancestor) {
        None => {
            return Err(StorageError::Missing { height: ancestor });
        },
        Some(_) => {},
    }
    if !(low.height > ancestor && low.height - ancestor == 1) {
        return Err(StorageError::Gap { height: low.height, head: ancestor });
    }
    let _ = store.rollback_to(ancestor);
    let ghost base = store@;
    let ghost w = walk@;
    proof {
        assert(base.len() > 0 && base.last().height == ancestor);
        assert(w[n - 1].height + (n - 1) == w[0].height);
    }
    let mut j: usize = 0;
    while j < n
        invariant
            n == w.len(),
            w == walk@,
            linked_down(w),
            w[n - 1].height == ancestor + 1,
            base.len() > 0,
            base.last().height == ancestor,
            contiguous(base),
            j <= n,
            store.wf(),
            store@ == base + ascending(w).subrange(0, j as int),
            store@.len() > 0,
            store@.last().height == ancestor + j,
        decreases n - j,
    {
        let b = walk.walked[n - 1 - j];
        proof {
            assert(w[n - 1 - j].height + (n - 1 - j) == w[0].height);
            assert(w[n - 1].height + (n - 1) == w[0].height);
            assert(b.height == ancestor + j + 1);
        }
        let _ = store.insert(b);
        proof {
            assert(ascending(w).subrange(0, j + 1) =~= ascending(w).subrange(0, j as int).push(b));
            assert(store@ =~= base + ascending(w).subrange(0, j + 1));
        }
        j = j + 1;
    }
    proof {
        assert(ascending(w).subrange(0, n as int) =~= ascending(w));
    }
    Ok(())
}

/// The engine's policy knobs.
#[derive(Clone, Copy, Debug, PartialEq, Eq)]
pub struct IngestConfig {
    /// The most blocks a walk back may hold before the window is re-seeded.
    pub max_walk_back: u64,
    /// How many failed fetches of one ancestor are retried before the walk
    /// is abandoned.
    pub max_fetch_retries: u32,
    /// The first reconnect delay, in milliseconds.
    pub backoff_base_ms: u64,
    /// The longest reconnect delay, in milliseconds.
    pub backoff_max_ms: u64,
}

/// Default walk-back depth: two epochs of the beacon chain.
pub const DEFAULT_MAX_WALK_BACK: u64 = 64;

/// Default retries of a failed ancestor fetch.
pub const DEFAULT_MAX_FETCH_RETRIES: u32 = 3;

/// Default first reconnect delay, in milliseconds.
pub const DEFAULT_BACKOFF_BASE_MS: u64 = 500;

/// Default reconnect delay cap, in milliseconds.
pub const DEFAULT_BACKOFF_MAX_MS: u64 = 30000;

impl IngestConfig {
    /// The default policy.
    pub fn standard() -> (r: IngestConfig)
        ensures
            r.max_walk_back == DEFAULT_MAX_WALK_BACK,
            r.max_fetch_retries == DEFAULT_MAX_FETCH_RETRIES,
            r.backoff_base_ms == DEFAULT_BACKOFF_BASE_MS,
            r.backoff_max_ms == DEFAULT_BACKOFF_MAX_MS,
    {
        IngestConfig {
            max_walk_back: DEFAULT_MAX_WALK_BACK,
            max_fetch_retries: DEFAULT_MAX_FETCH_RETRIES,
            backoff_base_ms: DEFAULT_BACKOFF_BASE_MS,
            backoff_max_ms: DEFAULT_BACKOFF_MAX_MS,
        }
    }
}

/// The reconnect delay before retry `n` (counting from zero): `base`, doubled
/// on every retry, never above `max`.
pub open spec fn capped_delay(base: int, max: int, n: nat) -> int
    decreases n,
{
    if n == 0 {
        if base < max { base } else { max }
    } else {
        let d = 2 * capped_delay(base, max, (n - 1) as nat);
        if d < max { d } else { max }
    }
}

proof fn lemma_capped_delay_stays(base: int, max: int, k: nat, n: nat)
    requires
        0 <= max,
        k <= n,
        capped_delay(base, max, k) == max,
    ensures
        capped_delay(base, max, n) == max,
    decreases n - k,
{
    if k < n {
        lemma_capped_delay_stays(base, max, k, (n - 1) as nat);
    }
}

/// The reconnect delay before retry `retry`, in milliseconds.
pub fn backoff_delay(base_ms: u64, max_ms: u64, retry: u32) -> (r: u64)
    ensures
        r == capped_delay(base_ms as int, max_ms as int, retry as nat),
{
    let mut d: u64 = if base_ms < max_ms { base_ms } else { max_ms };
    let mut k: u32 = 0;
    while k < retry && d < max_ms
        invariant
            k <= retry,
            d <= max_ms,
            d == capped_delay(base_ms as int, max_ms as int, k as nat),
        decreases retry - k,
    {
        if d <= max_ms / 2 {
            d = 2 * d;
        } else {
            d = max_ms;
        }
        k = k + 1;
    }
    proof {
        if k < retry {
            lemma_capped_delay_stays(base_ms as int, max_ms as int, k as nat, retry as nat);
        }
    }
    d
}

/// The engine's phase.
#[derive(Clone, Copy, Debug, PartialEq, Eq, Structural)]
pub enum Phase {
    /// Establishing the new-head subscription.
    Connecting,
    /// Subscribed, waiting for the next head.
    Synced,
    /// Fetching ancestors to resolve a fork.
    Reconciling,
    /// Shut down; final.
    Stopped,
}

/// What the driver observed.
#[derive(Clone, Copy, Debug, PartialEq, Eq)]
pub enum Event {
    /// The subscription is established.
    Connected,
    /// Establishing the subscription failed.
    ConnectFailed,
    /// The subscription ended.
    ConnectionLost,
    /// A new head arrived, with its full data.
    NewHead(Block),
    /// The requested ancestor arrived.
    Fetched(Block),
    /// Fetching the requested ancestor failed.
    FetchFailed,
    /// Shutdown was requested.
    ShutdownRequested,
}

/// What the driver must do next.
#[derive(Clone, Copy, Debug, PartialEq, Eq, Structural)]
pub enum Action {
    /// Subscribe to new heads now.
    Subscribe,
    /// Wait this many milliseconds, then subscribe.
    Backoff(u64),
    /// Wait for the next new head.
    AwaitHead,
    /// Fetch the block at this height.
    FetchAncestor(u64),
    /// Stop; the engine is done.
    Stop,
}

/// What the store, the pending walk and the next action become once a walk
/// has grown: the tail is replaced at a common ancestor, the window is
/// re-seeded from the walk's head when the walk is exhausted, or the next
/// ancestor is fetched.
pub open spec fn settle(s: Seq<Block>, w: Seq<Block>, d: int) -> (Seq<Block>, Option<Seq<Block>>, Action) {
    match walk_step(s, w, d) {
        WalkStep::Found(a) => (rolled_back(s, a as int) + ascending(w), None, Action::AwaitHead),
        WalkStep::Exhausted => (seq![w[0]], None, Action::AwaitHead),
        WalkStep::Fetch(x) => (s, Some(w), Action::FetchAncestor(x)),
    }
}

/// What a new head `h` does to the store: a duplicate is ignored, a linear
/// extension is inserted, anything else starts a walk back.
pub open spec fn absorb(s: Seq<Block>, h: Block, d: int) -> (Seq<Block>, Option<Seq<Block>>, Action) {
    match notice_of(s, h) {
        Notice::Duplicate => (s, None, Action::AwaitHead),
        Notice::Extends => (inserted(s, h), None, Action::AwaitHead),
        Notice::Diverges => settle(s, seq![h], d),
    }
}

fn settle_walk(store: &mut Store, walk: WalkBack, max_depth: u64) -> (r: (Option<WalkBack>, Action))
    requires
        old(store).wf(),
        walk.wf(),
    ensures
        final(store).wf(),
        final(store)@ == settle(old(store)@, walk@, max_depth as int).0,
        walk_view(r.0) == settle(old(store)@, walk@, max_depth as int).1,
        r.1 == settle(old(store)@, walk@, max_depth as int).2,
        r.0 is Some ==> r.0->Some_0.wf() && r.0->Some_0@.last().height > 0,
{
    match walk.next_step(store, max_depth) {
        WalkStep::Found(a) => {
            let _ = apply_reorg(store, a, &walk);
            (None, Action::AwaitHead)
        },
        WalkStep::Exhausted => {
            let h = walk.head();
            store.reseed(h);
            (None, Action::AwaitHead)
        },
        WalkStep::Fetch(x) => (Some(walk), Action::FetchAncestor(x)),
    }
}

/// The walk a pending `Option<WalkBack>` holds.
pub open spec fn walk_view(w: Option<WalkBack>) -> Option<Seq<Block>> {
    match w {
        Some(x) => Some(x@),
        None => None,
    }
}


/// The engine's state as plain values.
pub struct EngineModel {
    pub phase: Phase,
    pub walk: Option<Seq<Block>>,
    pub attempts: u32,
    pub failures: u32,
    pub config: IngestConfig,
}

/// The action that an event which changes nothing hands back: the one that
/// the phase is waiting on.
pub open spec fn resume(m: EngineModel) -> Action {
    match m.phase {
        Phase::Connecting => Action::Subscribe,
        Phase::Synced => Action::AwaitHead,
        Phase::Reconciling => Action::FetchAncestor((m.walk->Some_0.last().height - 1) as u64),
        Phase::Stopped => Action::Stop,
    }
}

/// The model after a grown walk or a new head has been settled as `t`.
pub open spec fn after_settle(m: EngineModel, t: (Seq<Block>, Option<Seq<Block>>, Action)) -> (EngineModel, Seq<Block>, Action) {
    (
        EngineModel {
            phase: if t.1 is Some { Phase::Reconciling } else { Phase::Synced },
            walk: t.1,
            attempts: m.attempts,
            failures: 0,
            config: m.config,
        },
        t.0,
        t.2,
    )
}

/// A failed ancestor fetch: retried while the retry budget lasts, after that
/// the window is re-seeded from the walk's head.
pub open spec fn fetch_failed(m: EngineModel, s: Seq<Block>) -> (EngineModel, Seq<Block>, Action) {
    let w = m.walk->Some_0;
    if m.failures >= m.config.max_fetch_retries {
        (
            EngineModel { phase: Phase::Synced, walk: None, attempts: m.attempts, failures: 0, config: m.config },
            seq![w[0]],
            Action::AwaitHead,
        )
    } else {
        (
            EngineModel { failures: (m.failures + 1) as u32, ..m },
            s,
            Action::FetchAncestor((w.last().height - 1) as u64),
        )
    }
}

/// The engine's transition: from its state, the store's window and an event
/// to its next state, the next window and the action for the driver.
pub open spec fn transition(m: EngineModel, s: Seq<Block>, e: Event) -> (EngineModel, Seq<Block>, Action) {
    if m.phase == Phase::Stopped || e == Event::ShutdownRequested {
        (EngineModel { phase: Phase::Stopped, walk: None, ..m }, s, Action::Stop)
    } else {
        match e {
            Event::ConnectFailed | Event::ConnectionLost => {
                let a: u32 = if m.attempts == u32::MAX { u32::MAX } else { (m.attempts + 1) as u32 };
                (
                    EngineModel { phase: Phase::Connecting, walk: None, attempts: a, failures: 0, config: m.config },
                    s,
                    Action::Backoff(
                        capped_delay(
                            m.config.backoff_base_ms as int,
                            m.config.backoff_max_ms as int,
                            (a - 1) as nat,
                        ) as u64,
                    ),
                )
            },
            Event::Connected => {
                if m.phase == Phase::Connecting {
                    (
                        EngineModel { phase: Phase::Synced, walk: None, attempts: 0, failures: 0, config: m.config },
                        s,
                        Action::AwaitHead,
                    )
                } else {
                    (m, s, resume(m))
                }
            },
            Event::NewHead(h) => {
                if m.phase == Phase::Connecting {
                    (m, s, resume(m))
                } else {
                    after_settle(m, absorb(s, h, m.config.max_walk_back as int))
                }
            },
            Event::Fetched(b) => {
                if m.phase != Phase::Reconciling {
                    (m, s, resume(m))
                } else if extends_walk(m.walk->Some_0, b) {
                    after_settle(m, settle(s, m.walk->Some_0.push(b), m.config.max_walk_back as int))
                } else {
                    fetch_failed(m, s)
                }
            },
            Event::FetchFailed => {
                if m.phase != Phase::Reconciling {
                    (m, s, resume(m))
                } else {
                    fetch_failed(m, s)
                }
            },
            Event::ShutdownRequested => (EngineModel { phase: Phase::Stopped, walk: None, ..m }, s, Action::Stop),
        }
    }
}

/// The ingestion engine's decision state.
pub struct Engine {
    phase: Phase,
    walk: Option<WalkBack>,
    attempts: u32,
    failures: u32,
    config: IngestConfig,
}

impl Engine {
    /// The engine's state as plain values.
    pub closed spec fn model(&self) -> EngineModel {
        EngineModel {
            phase: self.phase,
            walk: walk_view(self.walk),
            attempts: self.attempts,
            failures: self.failures,
            config: self.config,
        }
    }

    /// The engine's invariant: a walk is pending exactly while reconciling,
    /// and it still has an ancestor to fetch.
    pub closed spec fn wf(&self) -> bool {
        &&& (self.walk is Some <==> self.phase == Phase::Reconciling)
        &&& (self.walk is Some ==> self.walk->Some_0.wf() && self.walk->Some_0@.last().height > 0)
    }

    /// A fresh engine, about to subscribe.
    pub fn new(config: IngestConfig) -> (r: Engine)
        ensures
            r.wf(),
            r.model() == (EngineModel { phase: Phase::Connecting, walk: None, attempts: 0, failures: 0, config }),
    {
        Engine { phase: Phase::Connecting, walk: None, attempts: 0, failures: 0, config }
    }

    /// The engine's current phase.
    pub fn phase(&self) -> (r: Phase)
        ensures
            r == self.model().phase,
    {
        self.phase
    }

    fn resume_action(&self) -> (r: Action)
        requires
            self.wf(),
        ensures
            r == resume(self.model()),
    {
        match self.phase {
            Phase::Connecting => Action::Subscribe,
            Phase::Synced => Action::AwaitHead,
            Phase::Reconciling => {
                match &self.walk {
                    Some(w) => {
                        let low = w.walked[w.walked.len() - 1];
                        Action::FetchAncestor(low.height - 1)
                    },
                    None => Action::AwaitHead,
                }
            },
            Phase::Stopped => Action::Stop,
        }
    }

    fn fail_fetch(&mut self, store: &mut Store) -> (r: Action)
        requires
            old(self).wf(),
            old(store).wf(),
            old(self).phase == Phase::Reconciling,
        ensures
            final(self).wf(),
            final(store).wf(),
            (final(self).model(), final(store)@, r) == fetch_failed(old(self).model(), old(store)@),
    {
        let w = self.walk.take();
        match w {
            Some(w) => {
                if self.failures >= self.config.max_fetch_retries {
                    let h = w.head();
                    store.reseed(h);
                    self.phase = Phase::Synced;
                    self.failures = 0;
                    Action::AwaitHead
                } else {
                    self.failures = self.failures + 1;
                    let low = w.walked[w.walked.len() - 1];
                    self.walk = Some(w);
                    Action::FetchAncestor(low.height - 1)
                }
            },
            None => Action::AwaitHead,
        }
    }

    fn settle_into(&mut self, store: &mut Store, walk: WalkBack) -> (r: Action)
        requires
            old(store).wf(),
            walk.wf(),
        ensures
            final(self).wf(),
            final(store).wf(),
            (final(self).model(), final(store)@, r) == after_settle(
                old(self).model(),
                settle(old(store)@, walk@, old(self).config.max_walk_back as int),
            ),
    {
        let (pending, action) = settle_walk(store, walk, self.config.max_walk_back);
        self.phase = if pending.is_some() { Phase::Reconciling } else { Phase::Synced };
        self.walk = pending;
        self.failures = 0;
        action
    }

    /// Takes one event and decides the next action, mutating the store as
    /// reconciliation requires. Every mutation is one whole `insert`,
    /// `reseed` or tail replacement.
    pub fn step(&mut self, store: &mut Store, event: Event) -> (r: Action)
        requires
            old(self).wf(),
            old(store).wf(),
        ensures
            final(self).wf(),
            final(store).wf(),
            (final(self).model(), final(store)@, r) == transition(old(self).model(), old(store)@, event),
    {
        if self.phase == Phase::Stopped || matches!(event, Event::ShutdownRequested) {
            self.phase = Phase::Stopped;
            self.walk = None;
            return Action::Stop;
        }
        match event {
            Event::ConnectFailed | Event::ConnectionLost => {
                if self.attempts < u32::MAX {
                    self.attempts = self.attempts + 1;
                }
                self.phase = Phase::Connecting;
                self.walk = None;
                self.failures = 0;
                Action::Backoff(
                    backoff_delay(self.config.backoff_base_ms, self.config.backoff_max_ms, self.attempts - 1),
                )
            },
            Event::Connected => {
                if self.phase == Phase::Connecting {
                    self.phase = Phase::Synced;
                    self.attempts = 0;
                    self.failures = 0;
                    Action::AwaitHead
                } else {
                    self.resume_action()
                }
            },
            Event::NewHead(h) => {
                if self.phase == Phase::Connecting {
                    return self.resume_action();
                }
                match classify(store, &h) {
                    Notice::Duplicate => {
                        self.phase = Phase::Synced;
                        self.walk = None;
                        self.failures = 0;
                        Action::AwaitHead
                    },
                    Notice::Extends => {
                        let _ = store.insert(h);
                        self.phase = Phase::Synced;
                        self.walk = None;
                        self.failures = 0;
                        Action::AwaitHead
                    },
                    Notice::Diverges => {
                        let w = WalkBack::start(h);
                        self.settle_into(store, w)
                    },
                }
            },
            Event::Fetched(b) => {
                if self.phase != Phase::Reconciling {
                    return self.resume_action();
                }
                let pending = self.walk.take();
                match pending {
                    Some(mut w) => {
                        if w.accept(b) {
                            self.settle_into(store, w)
                        } else {
                            self.walk = Some(w);
                            self.fail_fetch(store)
                        }
                    },
                    None => Action::AwaitHead,
                }
            },
            Event::FetchFailed => {
                if self.phase != Phase::Reconciling {
                    return self.resume_action();
                }
                self.fail_fetch(store)
            },
            Event::ShutdownRequested => {
                self.phase = Phase::Stopped;
                self.walk = None;
                Action::Stop
            },
        }
    }
}


} // verus!
