use std::sync::Condvar;
use std::sync::Mutex;
use std::sync::MutexGuard;

use vstd::prelude::*;

verus! {

/// One second, in nanoseconds: the default idle timeout of the reaper.
pub const DEFAULT_TIMEOUT_NANOS: u64 = 1_000_000_000;

/// Where the background reaper stands.
#[derive(Clone, Copy, Debug, PartialEq, Eq, Structural)]
pub enum ReaperState {
    /// Reaping repeatedly; `since` is the time of the last wake-up or non-empty drain.
    Polling { since: u64 },
    /// Blocked on its waker until woken.
    Blocked,
    /// Told to stop: one final drain, then exit.
    Killed,
}

/// What the reaper's thread does next.
#[derive(Clone, Copy, Debug, PartialEq, Eq, Structural)]
pub enum ReaperAction {
    /// Drain the completion side, then report how many entries came out.
    Reap,
    /// Block on the waker, then report whether the reaper was killed.
    Wait,
    /// Drain the completion side one last time and exit, handing the side back.
    FinalReap,
}

/// The decisions of the background reaper. Times are nanoseconds on one monotonic clock,
/// as the thread that runs the reaper reads them.
pub struct ReaperMachine {
    pub state: ReaperState,
    pub timeout: u64,
}

impl ReaperMachine {
    /// A reaper about to look at its kill flag for the first time, with the given idle
    /// timeout or else one second.
    pub fn new(timeout: Option<u64>) -> (r: ReaperMachine)
        ensures
            r.state == ReaperState::Blocked,
            r.timeout == (match timeout {
                Some(t) => t,
                None => DEFAULT_TIMEOUT_NANOS,
            }),
    {
        let timeout = match timeout {
            Some(t) => t,
            None => DEFAULT_TIMEOUT_NANOS,
        };
        ReaperMachine { state: ReaperState::Blocked, timeout }
    }

    /// The reaper was woken (or has just started) at time `now`: if it was killed it makes
    /// its final drain, else it starts polling.
    pub fn on_wake(&mut self, killed: bool, now: u64) -> (r: ReaperAction)
        requires
            old(self).state == ReaperState::Blocked,
        ensures
            final(self).timeout == old(self).timeout,
            killed ==> r == ReaperAction::FinalReap && final(self).state == ReaperState::Killed,
            !killed ==> r == ReaperAction::Reap && final(self).state == (ReaperState::Polling { since: now }),
    {
        if killed {
            self.state = ReaperState::Killed;
            ReaperAction::FinalReap
        } else {
            self.state = ReaperState::Polling { since: now };
            ReaperAction::Reap
        }
    }

    /// A drain at time `now` moved `reaped` entries: a non-empty drain restarts the idle
    /// clock; once the clock has run for the timeout without one, the reaper blocks.
    pub fn on_reaped(&mut self, reaped: usize, now: u64) -> (r: ReaperAction)
        requires
            old(self).state is Polling,
        ensures
            final(self).timeout == old(self).timeout,
            ({
                let since = if reaped > 0 { now } else { old(self).state->since };
                let idle = if now >= since { now - since } else { 0 };
                if idle >= old(self).timeout {
                    r == ReaperAction::Wait && final(self).state == ReaperState::Blocked
                } else {
                    r == ReaperAction::Reap && final(self).state == (ReaperState::Polling { since })
                }
            }),
    {
        let since = match self.state {
            ReaperState::Polling { since } => if reaped > 0 { now } else { since },
            _ => now,
        };
        let idle = now.saturating_sub(since);
        if idle >= self.timeout {
            self.state = ReaperState::Blocked;
            ReaperAction::Wait
        } else {
            self.state = ReaperState::Polling { since };
            ReaperAction::Reap
        }
    }

    /// Whether the reaper has stopped.
    pub fn is_killed(&self) -> (r: bool)
        ensures
            r == (self.state == ReaperState::Killed),
    {
        matches!(self.state, ReaperState::Killed)
    }
}

#[verifier::external_type_specification]
#[verifier::external_body]
#[verifier::reject_recursive_types(T)]
pub struct ExMutex<T: ?Sized>(Mutex<T>);

#[verifier::external_type_specification]
#[verifier::external_body]
#[verifier::reject_recursive_types(T)]
pub struct ExMutexGuard<'a, T: ?Sized + 'a>(MutexGuard<'a, T>);

#[verifier::external_type_specification]
#[verifier::external_body]
pub struct ExCondvar(Condvar);

/// Relies on `Mutex::new`: a lock holding `init`.
#[verifier::external_body]
fn flag_new(init: bool) -> Mutex<bool> {
    Mutex::new(init)
}

/// Relies on `Condvar::new`.
#[verifier::external_body]
fn condvar_new() -> Condvar {
    Condvar::new()
}

/// Relies on `Mutex::lock`: blocks until the lock is held. A lock poisoned by a panicking
/// holder is not recovered: the panic propagates.
#[verifier::external_body]
fn flag_lock(flag: &Mutex<bool>) -> MutexGuard<'_, bool> {
    flag.lock().unwrap()
}

/// Relies on `MutexGuard`'s `DerefMut`: stores `value` in the locked flag.
#[verifier::external_body]
fn flag_store(guard: &mut MutexGuard<'_, bool>, value: bool) {
    **guard = value;
}

/// Relies on `Condvar::wait_while`: releases the lock and blocks while the flag is unset,
/// and returns with the lock held again once it is set. Poisoning propagates as a panic.
#[verifier::external_body]
fn condvar_wait_until_set<'a>(cv: &Condvar, guard: MutexGuard<'a, bool>) -> MutexGuard<'a, bool> {
    cv.wait_while(guard, |flag| is_unset(flag)).unwrap()
}

/// Relies on `Condvar::notify_all`: wakes every thread blocked on `cv`.
#[verifier::external_body]
fn condvar_notify_all(cv: &Condvar) {
    cv.notify_all()
}

/// Whether a waiter must keep blocking on the flag.
pub fn is_unset(flag: &mut bool) -> (r: bool)
    ensures
        r == !*old(flag),
        *final(flag) == *old(flag),
{
    !*flag
}

/// A single-slot, coalescing wake-up signal shared by producers and one waiting thread:
/// `wait` blocks until at least one `wake` has happened since the last `wait` returned,
/// and consumes it; several wakes before a wait count as one.
pub struct RTWaker {
    wakebool: Mutex<bool>,
    wakecv: Condvar,
}

impl RTWaker {
    /// A waker whose slot starts set when `init` holds.
    pub fn new(init: bool) -> (r: RTWaker) {
        RTWaker { wakebool: flag_new(init), wakecv: condvar_new() }
    }

    fn get_lock(&self) -> MutexGuard<'_, bool> {
        flag_lock(&self.wakebool)
    }

    /// Blocks until the slot is set, then clears it.
    pub fn wait(&self) {
        let mut guard = condvar_wait_until_set(&self.wakecv, self.get_lock());
        flag_store(&mut guard, false);
    }

    /// Sets the slot and wakes the waiting thread.
    pub fn wake(&self) {
        {
            let mut guard = self.get_lock();
            flag_store(&mut guard, true);
        }
        condvar_notify_all(&self.wakecv);
    }
}

} // verus!
