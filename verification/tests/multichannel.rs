use multichannel::dispatcher::MultiChannel;
use multichannel::msg::ChannelParameter;
use multichannel::msg::DispatchError;
use multichannel::msg::Msg;
use multichannel::worker::on_finish;
use multichannel::worker::on_message;
use multichannel::worker::WorkerState;
use multichannel::worker::WorkerStep;

/// Plays one worker without a thread: takes every pending message off the
/// worker's inbound channel and answers each work item with its own value,
/// tagged with the worker's slot. Returns how many items it processed.
fn service_identity_worker(
    id: usize,
    rx: &std::sync::mpsc::Receiver<Msg<i64>>,
    results: &std::sync::mpsc::Sender<ChannelParameter<i64>>,
) -> usize {
    let mut n = 0;
    while let Ok(msg) = rx.try_recv() {
        match on_message(msg).1 {
            WorkerStep::Process(v) => {
                let (state, tagged) = on_finish(id, v);
                assert_eq!(state, WorkerState::Idle);
                results.send(tagged).unwrap();
                n += 1;
            }
            WorkerStep::Stop => break,
        }
    }
    n
}

#[test]
fn drain_on_empty_pool_returns_nothing() {
    let mut pool: MultiChannel<i64> = MultiChannel::new(5);
    assert_eq!(pool.recv(), Ok(None));
}

#[test]
fn register_assigns_sequential_slots() {
    let mut pool: MultiChannel<i64> = MultiChannel::new(5);
    let (a, _rx_a) = pool.get_child_channel();
    let (b, _rx_b) = pool.get_child_channel();
    let (c, _rx_c) = pool.get_child_channel();
    assert_eq!(a, 0);
    assert_eq!(b, 1);
    assert_eq!(c, 2);
}

#[test]
fn round_trip_single_worker() {
    let mut pool: MultiChannel<i64> = MultiChannel::new(5);
    let results = pool.result_sender();
    let (id, rx) = pool.get_child_channel();
    assert_eq!(pool.send_child(7), Ok(()));
    assert_eq!(service_identity_worker(id, &rx, &results), 1);
    assert_eq!(pool.recv(), Ok(Some(7)));
}

#[test]
fn drain_times_out_while_worker_is_busy() {
    let mut pool: MultiChannel<i64> = MultiChannel::new(5);
    let results = pool.result_sender();
    let (id, rx) = pool.get_child_channel();
    assert_eq!(pool.send_child(42), Ok(()));
    // The worker has not answered yet: the bounded receive elapses empty,
    // which is the expected outcome, not an error.
    assert_eq!(pool.recv(), Ok(None));
    service_identity_worker(id, &rx, &results);
    assert_eq!(pool.recv(), Ok(Some(42)));
}

#[test]
fn worker_receives_items_in_dispatch_order() {
    let mut pool: MultiChannel<i64> = MultiChannel::new(5);
    let results = pool.result_sender();
    let (id, rx) = pool.get_child_channel();

    assert_eq!(pool.send_child(10), Ok(()));
    match rx.recv().unwrap() {
        Msg::Work(v) => assert_eq!(v, 10),
        Msg::Terminate => panic!("no termination was broadcast"),
    }
    results.send(ChannelParameter { id, value: 10 }).unwrap();

    assert_eq!(pool.send_child(20), Ok(()));
    match rx.recv().unwrap() {
        Msg::Work(v) => assert_eq!(v, 20),
        Msg::Terminate => panic!("no termination was broadcast"),
    }
    results.send(ChannelParameter { id, value: 20 }).unwrap();

    // The result of 10 was consumed while waiting to dispatch 20, so it sits
    // in the buffer and leaves first.
    assert_eq!(pool.recv(), Ok(Some(10)));
    assert_eq!(pool.recv(), Ok(Some(20)));
}

#[test]
fn all_values_observed_exactly_once() {
    let mut pool: MultiChannel<i64> = MultiChannel::new(10);
    let results = pool.result_sender();
    let mut workers = Vec::new();
    for _ in 0..3 {
        workers.push(pool.get_child_channel());
    }

    let mut seen: Vec<i64> = Vec::new();
    for i in 1..100 {
        assert_eq!(pool.send_child(i), Ok(()));
        for (id, rx) in workers.iter() {
            service_identity_worker(*id, rx, &results);
        }
        if let Ok(Some(v)) = pool.recv() {
            seen.push(v);
        }
    }
    assert_eq!(pool.send_all_child(Msg::Terminate), Ok(()));
    loop {
        match pool.recv() {
            Ok(Some(v)) => seen.push(v),
            Ok(None) => break,
            Err(e) => panic!("unexpected error while draining: {:?}", e),
        }
    }

    seen.sort();
    let expected: Vec<i64> = (1..100).collect();
    assert_eq!(seen, expected);
}

#[test]
fn broadcast_terminates_every_idle_worker() {
    let mut pool: MultiChannel<i64> = MultiChannel::new(5);
    let mut workers = Vec::new();
    for _ in 0..3 {
        workers.push(pool.get_child_channel());
    }
    assert_eq!(pool.send_all_child(Msg::Terminate), Ok(()));
    for (_, rx) in workers.iter() {
        let (state, step) = on_message(rx.recv().unwrap());
        assert_eq!(state, WorkerState::Terminated);
        assert!(matches!(step, WorkerStep::Stop));
    }
}

#[test]
fn busy_worker_sees_broadcast_after_its_pending_work() {
    let mut pool: MultiChannel<i64> = MultiChannel::new(5);
    let (_, rx) = pool.get_child_channel();
    // The worker is handed one item and has not read it yet when the stop
    // signal is broadcast: its channel delivers the item first.
    assert_eq!(pool.send_child(8), Ok(()));
    assert_eq!(pool.send_all_child(Msg::Terminate), Ok(()));
    match rx.recv().unwrap() {
        Msg::Work(v) => assert_eq!(v, 8),
        Msg::Terminate => panic!("the pending work item must arrive first"),
    }
    let (state, step) = on_message(rx.recv().unwrap());
    assert_eq!(state, WorkerState::Terminated);
    assert!(matches!(step, WorkerStep::Stop));
}

#[test]
fn dispatch_to_dead_worker_surfaces_unavailable() {
    let mut pool: MultiChannel<i64> = MultiChannel::new(5);
    let (id, rx) = pool.get_child_channel();
    drop(rx);
    assert_eq!(
        pool.send_child(5),
        Err(DispatchError::WorkerUnavailable { slot: id })
    );
}

#[test]
fn broadcast_to_dead_worker_surfaces_unavailable() {
    let mut pool: MultiChannel<i64> = MultiChannel::new(5);
    let (_, _rx_a) = pool.get_child_channel();
    let (b, rx_b) = pool.get_child_channel();
    drop(rx_b);
    assert_eq!(
        pool.send_all_child(Msg::Work(1)),
        Err(DispatchError::WorkerUnavailable { slot: b })
    );
}

#[test]
fn result_from_idle_worker_is_a_protocol_violation() {
    let mut pool: MultiChannel<i64> = MultiChannel::new(5);
    let results = pool.result_sender();
    let (id, _rx) = pool.get_child_channel();
    // Slot 0 is idle: nothing was dispatched, so no honest result exists.
    results.send(ChannelParameter { id, value: 1 }).unwrap();
    assert_eq!(pool.recv(), Err(DispatchError::ProtocolViolation { slot: id }));
}

#[test]
fn result_from_unknown_slot_is_a_protocol_violation() {
    let mut pool: MultiChannel<i64> = MultiChannel::new(5);
    let results = pool.result_sender();
    let (_, _rx) = pool.get_child_channel();
    results.send(ChannelParameter { id: 7, value: 1 }).unwrap();
    assert_eq!(pool.recv(), Err(DispatchError::ProtocolViolation { slot: 7 }));
}

#[test]
fn on_message_distinguishes_work_from_termination() {
    let (state, step) = on_message(Msg::Work(3i64));
    assert_eq!(state, WorkerState::Processing);
    assert!(matches!(step, WorkerStep::Process(3)));

    let (state, step) = on_message(Msg::<i64>::Terminate);
    assert_eq!(state, WorkerState::Terminated);
    assert!(matches!(step, WorkerStep::Stop));
}

#[test]
fn on_finish_tags_the_result_with_the_slot() {
    let (state, tagged) = on_finish(2, 9i64);
    assert_eq!(state, WorkerState::Idle);
    assert_eq!(tagged.id, 2);
    assert_eq!(tagged.value, 9);
}
