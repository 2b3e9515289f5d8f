use vstd::prelude::*;

verus! {

/// One message on a worker's inbound channel: either a unit of work or the
/// out-of-band instruction to shut down. Keeping the two apart in the type
/// means no ordinary work value can ever be mistaken for the stop signal.
#[derive(Clone)]
pub enum Msg<T> {
    Work(T),
    Terminate,
}

/// A tagged result: the identity of the worker that produced `value`, so the
/// dispatcher knows which worker just became free.
pub struct ChannelParameter<T> {
    pub id: usize,
    pub value: T,
}

/// The errors the dispatcher surfaces. A receive that merely times out is not
/// an error: it is the expected outcome when no worker has finished yet.
#[derive(Clone, Copy, Debug, PartialEq, Eq, Structural)]
pub enum DispatchError {
    /// A send to the given worker slot failed: that worker's receiving end has
    /// been dropped, so the worker is gone.
    WorkerUnavailable { slot: usize },
    /// The shared result channel has no sending ends left.
    ChannelClosed,
    /// A result arrived tagged with a slot that is unknown or not busy, which
    /// no well-behaved worker produces.
    ProtocolViolation { slot: usize },
}

} // verus!
