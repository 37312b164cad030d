use vstd::prelude::*;

verus! {

/// The outcome of one operation as the completion side reports it: the tag of the
/// submission it answers, the operation's result code, and its flags.
///
/// The registry never interprets `result` or `flags`; it only files the entry by its tag.
#[derive(Clone, Copy, Debug, PartialEq, Eq, Structural)]
pub struct Completion {
    pub user_data: u64,
    pub result: i32,
    pub flags: u32,
}

impl Completion {
    pub fn new(user_data: u64, result: i32, flags: u32) -> (r: Completion)
        ensures
            r == (Completion { user_data, result, flags }),
    {
        Completion { user_data, result, flags }
    }

    /// The tag of the submission this entry answers.
    pub fn user_data(&self) -> (r: u64)
        ensures
            r == self.user_data,
    {
        self.user_data
    }

    pub fn result(&self) -> (r: i32)
        ensures
            r == self.result,
    {
        self.result
    }

    pub fn flags(&self) -> (r: u32)
        ensures
            r == self.flags,
    {
        self.flags
    }
}

} // verus!
