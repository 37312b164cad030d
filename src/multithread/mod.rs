use std::sync::mpsc::Sender;

use vstd::pervasive::unreached;
use vstd::prelude::*;

use crate::completion::Completion;
use crate::registry::PromiseRegistry;

use self::promise::Promise;
use self::registry::RegRef;
use self::signal::Signal;

pub mod promise;
pub mod registry;
pub mod signal;

verus! {

#[verifier::external_type_specification]
#[verifier::external_body]
#[verifier::reject_recursive_types(T)]
pub struct ExSender<T>(Sender<T>);

/// Relies on `Sender::send`: queues the value for the receiving side; once the receiver is
/// gone it fails and hands the value back.
#[verifier::external_body]
fn channel_send<T>(sender: &Sender<T>, value: T) -> (r: Result<(), T>)
    ensures
        r matches Err(v) ==> v == value,
{
    sender.send(value).map_err(|e| e.0)
}

/// Relies on `Sender`'s `Clone`: another sending handle on the same channel.
#[verifier::external_body]
fn channel_clone<T>(sender: &Sender<T>) -> Sender<T> {
    sender.clone()
}

/// What the ring's owner does after trying to push an entry.
#[derive(Clone, Copy, Debug, PartialEq, Eq, Structural)]
pub enum PushStep {
    /// The entry went in and its tag is scheduled: notify the kernel.
    Scheduled,
    /// The submission side was full: drain the completion side, notify the kernel, retry.
    DrainAndRetry,
}

/// The ring owner's decision after trying to push the entry tagged `tag`: only once the
/// push has succeeded is the tag marked scheduled.
pub fn after_push(reg_ref: &RegRef, tag: u64, pushed: bool) -> (r: PushStep)
    ensures
        r == (if pushed { PushStep::Scheduled } else { PushStep::DrainAndRetry }),
        pushed ==> exists|s0: PromiseRegistry, fresh: bool, s1: PromiseRegistry|
            s0.wf() && #[trigger] PromiseRegistry::schedules(s0, tag, fresh, s1),
{
    if pushed {
        reg_ref.schedule(tag);
        PushStep::Scheduled
    } else {
        PushStep::DrainAndRetry
    }
}

/// The thread-owned dispatcher, as producers see it: a sending handle on the request
/// channel of the one thread that owns the ring, and the shared registry. Clones share
/// both.
#[verifier::reject_recursive_types(S)]
pub struct PIoUring<S> {
    sender: Sender<Signal<S>>,
    reg_ref: RegRef,
}

impl<S> PIoUring<S> {
    /// A dispatcher over the request channel `sender`, whose receiving thread owns the
    /// ring and files completions into `reg_ref`.
    pub fn new(sender: Sender<Signal<S>>, reg_ref: RegRef) -> (r: PIoUring<S>) {
        PIoUring { sender, reg_ref }
    }

    pub fn clone(&self) -> (r: PIoUring<S>) {
        PIoUring { sender: channel_clone(&self.sender), reg_ref: self.reg_ref.clone() }
    }

    /// The shared registry.
    pub fn registry(&self) -> (r: RegRef) {
        self.reg_ref.clone()
    }

    /// Sends a request to the ring's owner; gives it back if the owner is gone.
    pub fn send(&self, signal: Signal<S>) -> (r: Result<(), Signal<S>>)
        ensures
            r matches Err(v) ==> v == signal,
    {
        channel_send(&self.sender, signal)
    }

    /// Asks the ring's owner to drain its completion side; `false` if it is gone.
    pub fn reap(&self) -> (r: bool) {
        self.send(Signal::Reap).is_ok()
    }

    /// Allocates a tag for `entry`, hands both to the ring's owner and returns the promise
    /// at once: the submission proceeds asynchronously. The entry comes back when no tag is
    /// free or the owner is gone.
    pub fn submit(&self, entry: S) -> (r: Result<Promise<S>, S>)
        ensures
            r matches Err(e) ==> e == entry,
    {
        match self.reg_ref.get_uuid() {
            None => Err(entry),
            Some(uuid) => match self.send(Signal::Entry(uuid, entry)) {
                Ok(()) => {
                    Ok(Promise::new(uuid, self.reg_ref.clone(), self.clone()))
                },
                Err(Signal::Entry(_, back)) => Err(back),
                Err(Signal::Reap) => unreached(),
            },
        }
    }

    /// Submits each entry in order, as `submit` does.
    pub fn batch_submit(&self, entries: Vec<S>) -> (r: Vec<Result<Promise<S>, S>>)
        ensures
            r@.len() == entries@.len(),
            forall|i: int| 0 <= i < r@.len() ==> ((#[trigger] r@[i]) matches Err(e) ==> e == entries@[i]),
    {
        let ghost es = entries@;
        let mut out: Vec<Result<Promise<S>, S>> = Vec::new();
        let mut rest = entries;
        while rest.len() > 0
            invariant
                out@.len() + rest@.len() == es.len(),
                rest@ == es.subrange(out@.len() as int, es.len() as int),
                forall|i: int| 0 <= i < out@.len() ==> ((#[trigger] out@[i]) matches Err(e) ==> e == es[i]),
            decreases rest@.len(),
        {
            let entry = rest.remove(0);
            let ghost k = out@.len() as int;
            let r = self.submit(entry);
            out.push(r);
            assert(out@[k] == r);
        }
        out
    }
}

/// Files the completions the ring's owner drained into the shared registry; returns how
/// many there were.
pub fn reap_drained(reg_ref: &RegRef, drained: Vec<Completion>) -> (r: usize)
    ensures
        r == drained@.len(),
        exists|s0: PromiseRegistry, s1: PromiseRegistry|
            s0.wf() && #[trigger] PromiseRegistry::batch_completes(s0, drained@, s1),
{
    reg_ref.reap(drained)
}

} // verus!
