use vstd::prelude::*;

verus! {

// The dispatcher's whole interaction with the outside world goes through
// `std::sync::mpsc` channels. vstd gives those types no specification, so they
// are declared here and every call is wrapped. What a receive hands back
// depends on what other threads have sent, so the wrappers promise nothing of
// the values; the verified code states what holds whatever came back.

#[verifier::external_type_specification]
#[verifier::external_body]
#[verifier::reject_recursive_types(T)]
pub struct ExSender<T>(std::sync::mpsc::Sender<T>);

#[verifier::external_type_specification]
#[verifier::external_body]
#[verifier::reject_recursive_types(T)]
pub struct ExReceiver<T>(std::sync::mpsc::Receiver<T>);

/// Outcome of one bounded receive on a channel.
pub enum RecvOutcome<T> {
    /// A value was waiting, or arrived within the bound.
    Received(T),
    /// The bound elapsed with nothing to receive.
    TimedOut,
    /// Every sending end of the channel has been dropped.
    Disconnected,
}

/// Outcome of one unbounded (blocking) receive on a channel.
pub enum BlockingOutcome<T> {
    /// A value was waiting, or arrived while blocked.
    Received(T),
    /// Every sending end of the channel has been dropped.
    Disconnected,
}

/// Relies on `std::sync::mpsc::channel`: returns the sending and receiving
/// ends of a fresh asynchronous channel.
#[verifier::external_body]
pub(crate) fn new_channel<T>() -> (std::sync::mpsc::Sender<T>, std::sync::mpsc::Receiver<T>) {
    std::sync::mpsc::channel()
}

/// Relies on `std::sync::mpsc::Sender::clone`: another sending end of the same
/// channel.
#[verifier::external_body]
pub(crate) fn clone_sender<T>(s: &std::sync::mpsc::Sender<T>) -> std::sync::mpsc::Sender<T> {
    s.clone()
}

/// Relies on `std::sync::mpsc::Sender::send`: `true` when the value was queued
/// on the channel, `false` when the receiving end has been dropped. Whether it
/// succeeds depends on the other side of the channel, so no more is promised.
#[verifier::external_body]
pub(crate) fn send_on<T>(s: &std::sync::mpsc::Sender<T>, value: T) -> bool {
    s.send(value).is_ok()
}

/// Relies on `std::sync::mpsc::Receiver::recv_timeout`: a queued value if one
/// arrives within the bound, `TimedOut` when none did, `Disconnected` when no
/// sending end is left. What arrives depends on other threads, so nothing is
/// promised of the value.
#[verifier::external_body]
pub(crate) fn recv_timeout_ms<T>(
    r: &std::sync::mpsc::Receiver<T>,
    ms: u64,
) -> RecvOutcome<T> {
    match r.recv_timeout(std::time::Duration::from_millis(ms)) {
        Ok(v) => RecvOutcome::Received(v),
        Err(std::sync::mpsc::RecvTimeoutError::Timeout) => RecvOutcome::TimedOut,
        Err(std::sync::mpsc::RecvTimeoutError::Disconnected) => RecvOutcome::Disconnected,
    }
}

/// Relies on `std::sync::mpsc::Receiver::recv`: blocks until a value arrives,
/// or reports that no sending end is left. What arrives depends on other
/// threads, so nothing is promised of the value.
#[verifier::external_body]
pub(crate) fn recv_blocking<T>(r: &std::sync::mpsc::Receiver<T>) -> BlockingOutcome<T> {
    match r.recv() {
        Ok(v) => BlockingOutcome::Received(v),
        Err(std::sync::mpsc::RecvError) => BlockingOutcome::Disconnected,
    }
}

} // verus!
