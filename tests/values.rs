use io_uring_promise::completion::Completion;
use io_uring_promise::error::Error;
use io_uring_promise::promise::Promise;
use io_uring_promise::pstatus::PromiseStatus;

#[test]
fn status_messages() {
    assert_eq!(PromiseStatus::Scheduled.message(), "promise scheduled");
    assert_eq!(PromiseStatus::Completed.message(), "promise completed");
    assert_eq!(PromiseStatus::Unregistered.message(), "promise not registered");
}

#[test]
fn error_messages() {
    assert_eq!(Error::Push.message(), "submission queue is full");
    assert_eq!(Error::from(PromiseStatus::Scheduled).message(), "promise not ready; has status promise scheduled");
    assert_eq!(Error::from(PromiseStatus::Unregistered).message(), "promise not ready; has status promise not registered");
    assert_eq!(Error::Promise(PromiseStatus::Completed).message(), "promise not ready; has status promise completed");
    let io = Error::from(std::io::Error::new(std::io::ErrorKind::Other, "boom"));
    assert_eq!(io.message(), "io error: boom");
    assert!(matches!(io, Error::IO(_)));
}

#[test]
fn completion_fields() {
    let c = Completion::new(u64::MAX, -4, 7);
    assert_eq!(c.user_data(), u64::MAX);
    assert_eq!(c.result(), -4);
    assert_eq!(c.flags(), 7);
}

#[test]
fn promise_carries_its_tag() {
    assert_eq!(Promise::new(42).get_uuid(), 42);
}
