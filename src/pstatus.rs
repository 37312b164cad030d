use vstd::prelude::*;

verus! {

/// Where a promise stands in the registry.
#[derive(Clone, Copy, Debug, PartialEq, Eq, Structural)]
pub enum PromiseStatus {
    Scheduled,
    Completed,
    Unregistered,
}

impl PromiseStatus {
    /// A short human-readable description of the status.
    pub fn message(&self) -> (r: &'static str)
        ensures
            *self == PromiseStatus::Scheduled ==> r@ == "promise scheduled"@,
            *self == PromiseStatus::Completed ==> r@ == "promise completed"@,
            *self == PromiseStatus::Unregistered ==> r@ == "promise not registered"@,
    {
        match self {
            PromiseStatus::Scheduled => "promise scheduled",
            PromiseStatus::Completed => "promise completed",
            PromiseStatus::Unregistered => "promise not registered",
        }
    }
}

} // verus!
