use vstd::prelude::*;

use crate::msg::{ChannelParameter, Msg};

verus! {

/// A worker's lifecycle: blocked on its inbound channel, running one unit of
/// work, or shut down for good. A worker moves `Idle -> Processing -> Idle` on
/// every ordinary work item and `Idle -> Terminated` on the stop signal; it
/// never acts except in response to a message.
#[derive(Clone, Copy, Debug, PartialEq, Eq, Structural)]
pub enum WorkerState {
    Idle,
    Processing,
    Terminated,
}

/// What a worker must do next after reading one message while idle: run the
/// external processing function on a work item, or stop.
pub enum WorkerStep<T> {
    Process(T),
    Stop,
}

/// The decision an idle worker takes on one inbound message: a work item puts
/// it in `Processing` with that item to run; the stop signal puts it in
/// `Terminated` with nothing more to do. No ordinary work value can reach the
/// `Terminated` state.
pub fn on_message<T>(msg: Msg<T>) -> (r: (WorkerState, WorkerStep<T>))
    ensures
        msg is Terminate ==> r.0 is Terminated && r.1 is Stop,
        forall|v: T| msg == Msg::Work(v) ==> r.0 is Processing && r.1 == WorkerStep::Process(v),
{
    match msg {
        Msg::Work(v) => (WorkerState::Processing, WorkerStep::Process(v)),
        Msg::Terminate => (WorkerState::Terminated, WorkerStep::Stop),
    }
}

/// The step a worker takes when its processing function has produced `value`:
/// back to `Idle`, with the result tagged with the worker's own slot so the
/// dispatcher knows which worker just became free.
pub fn on_finish<T>(id: usize, value: T) -> (r: (WorkerState, ChannelParameter<T>))
    ensures
        r.0 is Idle,
        r.1.id == id,
        r.1.value == value,
{
    (WorkerState::Idle, ChannelParameter { id, value })
}

} // verus!
