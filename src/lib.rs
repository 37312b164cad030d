//! Promises over a kernel I/O ring: each submitted entry is tagged with a 64-bit
//! identifier, its completion is filed under that tag in a registry, and the holder of the
//! entry's promise claims it exactly once.
//!
//! The registry (`registry`, and its lock-guarded shared form in `multithread::registry`)
//! and the decisions of the three dispatch strategies live here: the direct single-owner
//! dispatcher (`direct`), the dispatcher whose ring a single thread owns (`multithread`),
//! and the background reaper (`cqreaper`, with `psqueue` and `rpromise` for its submission
//! side). The caller that holds the ring reports what the ring shows and carries out what
//! these decide.

use vstd::prelude::*;

pub mod completion;
pub mod cqreaper;
pub mod direct;
pub mod error;
pub mod multithread;
pub mod promise;
pub mod pstatus;
pub mod psqueue;
pub mod registry;
pub mod rpromise;

pub use crate::direct::PIoUring;

verus! {

} // verus!
