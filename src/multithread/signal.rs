use vstd::prelude::*;

verus! {

/// A request to the thread that owns the ring.
#[derive(Debug)]
pub enum Signal<S> {
    /// Push this entry, already allocated this tag, and schedule the tag once it is in.
    Entry(u64, S),
    /// Drain the completion side into the registry.
    Reap,
}

} // verus!
