use io_uring::squeue::PushError;

use vstd::prelude::*;
use vstd::string::StringExecFns;

use crate::pstatus::PromiseStatus;

verus! {

#[verifier::external_type_specification]
#[verifier::external_body]
pub struct ExIoError(std::io::Error);

#[verifier::external_type_specification]
#[verifier::external_body]
pub struct ExPushError(PushError);

/// Why a submission or a claim did not go through.
#[derive(Debug)]
pub enum Error {
    /// The submission side was full.
    Push,
    /// The kernel refused or failed the submission call.
    IO(std::io::Error),
    /// The promise is not ready; carries the status observed.
    Promise(PromiseStatus),
}

impl Error {
    /// A short human-readable description of the error.
    pub fn message(&self) -> (r: String)
        ensures
            self matches Error::Push ==> r@ == "submission queue is full"@,
            self matches Error::Promise(PromiseStatus::Scheduled) ==> r@ == "promise not ready; has status promise scheduled"@,
            self matches Error::Promise(PromiseStatus::Completed) ==> r@ == "promise not ready; has status promise completed"@,
            self matches Error::Promise(PromiseStatus::Unregistered) ==> r@ == "promise not ready; has status promise not registered"@,
            self matches Error::IO(_) ==> "io error: "@.is_prefix_of(r@),
    {
        match self {
            Error::Push => "submission queue is full".to_string(),
            Error::IO(error) => {
                let text = io_error_text(error);
                let r = "io error: ".to_string().concat(text.as_str());
                assert("io error: "@.is_prefix_of(r@)) by {
                    assert(r@.subrange(0, "io error: "@.len() as int) =~= "io error: "@);
                }
                r
            },
            Error::Promise(PromiseStatus::Scheduled) => "promise not ready; has status promise scheduled".to_string(),
            Error::Promise(PromiseStatus::Completed) => "promise not ready; has status promise completed".to_string(),
            Error::Promise(PromiseStatus::Unregistered) => "promise not ready; has status promise not registered".to_string(),
        }
    }
}

/// Relies on `io::Error`'s `Display` (through `ToString`): the error's own text.
#[verifier::external_body]
fn io_error_text(error: &std::io::Error) -> String {
    error.to_string()
}

impl From<PushError> for Error {
    fn from(_e: PushError) -> (r: Error) {
        Error::Push
    }
}

impl vstd::std_specs::convert::FromSpecImpl<PushError> for Error {
    open spec fn obeys_from_spec() -> bool {
        true
    }

    open spec fn from_spec(v: PushError) -> Error {
        Error::Push
    }
}

impl From<std::io::Error> for Error {
    fn from(error: std::io::Error) -> (r: Error) {
        Error::IO(error)
    }
}

impl vstd::std_specs::convert::FromSpecImpl<std::io::Error> for Error {
    open spec fn obeys_from_spec() -> bool {
        true
    }

    open spec fn from_spec(v: std::io::Error) -> Error {
        Error::IO(v)
    }
}

impl From<PromiseStatus> for Error {
    fn from(status: PromiseStatus) -> (r: Error) {
        Error::Promise(status)
    }
}

impl vstd::std_specs::convert::FromSpecImpl<PromiseStatus> for Error {
    open spec fn obeys_from_spec() -> bool {
        true
    }

    open spec fn from_spec(v: PromiseStatus) -> Error {
        Error::Promise(v)
    }
}

} // verus!
