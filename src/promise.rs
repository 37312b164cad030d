use vstd::prelude::*;

verus! {

/// The capability to claim the completion of one submitted entry, by its tag, from the
/// direct dispatcher that accepted it.
pub struct Promise {
    uuid: u64,
}

impl Promise {
    pub closed spec fn tag(&self) -> u64 {
        self.uuid
    }

    pub fn new(user_data: u64) -> (r: Promise)
        ensures
            r.tag() == user_data,
    {
        Promise { uuid: user_data }
    }

    pub fn get_uuid(&self) -> (r: u64)
        ensures
            r == self.tag(),
    {
        self.uuid
    }
}

} // verus!
