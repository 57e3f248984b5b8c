//! A reorganisation-aware index of a blockchain's recent history.
//!
//! - [`block`]: the block record and its hash.
//! - [`store`]: a contiguous window of blocks, addressed by height and by
//!   hash, whose only mutations are `insert`, `rollback_to` and `reseed`.
//! - [`ingest`]: how new head notifications from a remote node are folded
//!   into the window, as a state machine from events to actions.
//! - [`codec`]: the fixed-width record a block is persisted as.
//! - [`utils`]: builder identities, elapsed time and short display forms.

pub mod block;
pub mod codec;
pub mod ingest;
pub mod store;
pub mod utils;
