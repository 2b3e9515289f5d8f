use vstd::prelude::*;

use crate::channel::{
    clone_sender, new_channel, recv_blocking, recv_timeout_ms, send_on, BlockingOutcome,
    RecvOutcome,
};
use crate::msg::{ChannelParameter, DispatchError, Msg};

verus! {

/// The dispatcher. It owns one sending end per worker (for handing work in),
/// the single shared receiving end (for collecting tagged results), the set of
/// currently idle worker slots, and a FIFO buffer of results not yet handed to
/// the caller.
///
/// The ghost dispatch log records, per worker slot, the sequence of work items
/// sent to it and how many of its results have been consumed. The
/// well-formedness invariant ties the free list to that log: a slot is free
/// exactly when every item sent to it has come back and been consumed, and no
/// slot ever has more than one item outstanding.
#[verifier::reject_recursive_types(T)]
pub struct MultiChannel<T> {
    to_child: Vec<std::sync::mpsc::Sender<Msg<T>>>,
    sender_from_child: std::sync::mpsc::Sender<ChannelParameter<T>>,
    receiver: std::sync::mpsc::Receiver<ChannelParameter<T>>,
    free_list: Vec<usize>,
    ret_values: std::collections::VecDeque<T>,
    timeout_ms: u64,
    sent: Ghost<Seq<Seq<T>>>,
    consumed: Ghost<Seq<nat>>,
    broadcasts: Ghost<Seq<Seq<Msg<T>>>>,
}

impl<T> MultiChannel<T> {
    /// How many workers have been registered.
    pub closed spec fn num_workers(&self) -> int {
        self.to_child@.len() as int
    }

    /// The slots currently idle, in the order they were returned to the
    /// dispatcher. Which of them `send_child` picks is deliberately left open.
    pub closed spec fn free_slots(&self) -> Seq<usize> {
        self.free_list@
    }

    /// Results received from workers but not yet handed to the caller,
    /// front first.
    pub closed spec fn buffered(&self) -> Seq<T> {
        self.ret_values@
    }

    /// The bound, in milliseconds, on how long `recv` waits for a result.
    pub closed spec fn timeout_millis(&self) -> u64 {
        self.timeout_ms
    }

    /// Per worker slot, every work item ever sent to it, in order.
    pub closed spec fn sent_log(&self) -> Seq<Seq<T>> {
        self.sent@
    }

    /// Per worker slot, how many of its results the dispatcher has consumed.
    pub closed spec fn consumed_log(&self) -> Seq<nat> {
        self.consumed@
    }

    /// Per worker slot, every broadcast message handed to its channel, in
    /// order. Broadcasts bypass the free list, so they are logged apart from
    /// the dispatched work items.
    pub closed spec fn broadcast_log(&self) -> Seq<Seq<Msg<T>>> {
        self.broadcasts@
    }

    /// Well-formedness: the logs cover every slot; no slot has more than one
    /// item outstanding; and a slot is on the free list exactly when nothing
    /// sent to it is still outstanding.
    pub open spec fn wf(&self) -> bool {
        &&& self.sent_log().len() == self.num_workers()
        &&& self.consumed_log().len() == self.num_workers()
        &&& self.broadcast_log().len() == self.num_workers()
        &&& forall|s: int|
            0 <= s < self.num_workers() ==> self.consumed_log()[s] <= #[trigger] self.sent_log()[s].len()
                <= self.consumed_log()[s] + 1
        &&& forall|k: int|
            0 <= k < self.free_slots().len() ==> (#[trigger] self.free_slots()[k] as int)
                < self.num_workers()
        &&& self.free_slots().no_duplicates()
        &&& forall|s: usize|
            (s as int) < self.num_workers() ==> (#[trigger] self.free_slots().contains(s)
                <==> self.sent_log()[s as int].len() == self.consumed_log()[s as int])
    }

    /// Builds a dispatcher with no workers, an empty free list, an empty
    /// result buffer, and the given bound on `recv`'s wait.
    pub fn new(timeout_ms: u64) -> (r: MultiChannel<T>)
        ensures
            r.wf(),
            r.num_workers() == 0,
            r.free_slots() == Seq::<usize>::empty(),
            r.buffered() == Seq::<T>::empty(),
            r.timeout_millis() == timeout_ms,
            r.sent_log() == Seq::<Seq<T>>::empty(),
            r.consumed_log() == Seq::<nat>::empty(),
            r.broadcast_log() == Seq::<Seq<Msg<T>>>::empty(),
    {
        let (sender, recv) = new_channel::<ChannelParameter<T>>();
        MultiChannel {
            to_child: Vec::new(),
            sender_from_child: sender,
            receiver: recv,
            free_list: Vec::new(),
            ret_values: std::collections::VecDeque::new(),
            timeout_ms,
            sent: Ghost(Seq::empty()),
            consumed: Ghost(Seq::empty()),
            broadcasts: Ghost(Seq::empty()),
        }
    }

    /// A sending end of the shared result channel, for wiring up a new worker.
    /// Workers report tagged results on it; only the dispatcher receives.
    pub fn result_sender(&self) -> std::sync::mpsc::Sender<ChannelParameter<T>> {
        clone_sender(&self.sender_from_child)
    }

    /// Registers the next worker: allocates the next slot id, creates that
    /// worker's dedicated inbound channel, marks the slot free, and returns
    /// the slot id together with the receiving end for the new worker.
    pub fn get_child_channel(&mut self) -> (r: (usize, std::sync::mpsc::Receiver<Msg<T>>))
        requires
            old(self).wf(),
        ensures
            final(self).wf(),
            r.0 as int == old(self).num_workers(),
            final(self).num_workers() == old(self).num_workers() + 1,
            final(self).free_slots() == old(self).free_slots().push(r.0),
            final(self).buffered() == old(self).buffered(),
            final(self).timeout_millis() == old(self).timeout_millis(),
            final(self).sent_log() == old(self).sent_log().push(Seq::<T>::empty()),
            final(self).consumed_log() == old(self).consumed_log().push(0),
            final(self).broadcast_log() == old(self).broadcast_log().push(Seq::<Msg<T>>::empty()),
    {
        let (send, recv) = new_channel::<Msg<T>>();
        let id = self.to_child.len();
        self.to_child.push(send);
        self.free_list.push(id);
        self.sent = Ghost(self.sent@.push(Seq::empty()));
        self.consumed = Ghost(self.consumed@.push(0));
        self.broadcasts = Ghost(self.broadcasts@.push(Seq::empty()));
        proof {
            lemma_push_fresh_keeps_no_duplicates(old(self).free_slots(), id);
            assert forall|s: usize|
                (s as int) < self.num_workers() implies (#[trigger] self.free_slots().contains(s)
                <==> self.sent_log()[s as int].len() == self.consumed_log()[s as int]) by {
                if s == id {
                    assert(self.free_slots()[self.free_slots().len() - 1] == id);
                    assert(self.free_slots().contains(s));
                } else {
                    lemma_push_contains_other(old(self).free_slots(), id, s);
                }
            }
        }
        (id, recv)
    }

    /// Takes note of one tagged result that came off the shared channel: if it
    /// is tagged with a known, busy slot, that worker returns to the free list,
    /// its consumed count rises by one, and the produced value is handed back.
    /// A result tagged with an unknown or idle slot is a protocol violation and
    /// changes nothing.
    pub fn note_result(&mut self, tagged: ChannelParameter<T>) -> (r: Result<T, DispatchError>)
        requires
            old(self).wf(),
        ensures
            final(self).wf(),
            final(self).num_workers() == old(self).num_workers(),
            final(self).buffered() == old(self).buffered(),
            final(self).timeout_millis() == old(self).timeout_millis(),
            final(self).sent_log() == old(self).sent_log(),
            final(self).broadcast_log() == old(self).broadcast_log(),
            ((tagged.id as int) < old(self).num_workers() && !old(self).free_slots().contains(
                tagged.id,
            )) ==> {
                &&& r == Ok::<T, DispatchError>(tagged.value)
                &&& final(self).free_slots() == old(self).free_slots().push(tagged.id)
                &&& final(self).consumed_log() == old(self).consumed_log().update(
                    tagged.id as int,
                    (old(self).consumed_log()[tagged.id as int] + 1) as nat,
                )
            },
            !((tagged.id as int) < old(self).num_workers() && !old(self).free_slots().contains(
                tagged.id,
            )) ==> {
                &&& r == Err::<T, DispatchError>(
                    DispatchError::ProtocolViolation { slot: tagged.id },
                )
                &&& final(self).free_slots() == old(self).free_slots()
                &&& final(self).consumed_log() == old(self).consumed_log()
            },
    {
        let ChannelParameter { id, value } = tagged;
        if id < self.to_child.len() && !contains_slot(&self.free_list, id) {
            self.free_list.push(id);
            self.consumed = Ghost(
                self.consumed@.update(id as int, (self.consumed@[id as int] + 1) as nat),
            );
            proof {
                lemma_push_fresh_keeps_no_duplicates(old(self).free_slots(), id);
                assert(!old(self).free_slots().contains(id));
                assert((id as int) < old(self).num_workers());
                assert(old(self).sent_log()[id as int].len() == old(self).consumed_log()[id
                    as int] + 1);
                assert forall|s: int| 0 <= s < self.num_workers() implies self.consumed_log()[s]
                    <= #[trigger] self.sent_log()[s].len() <= self.consumed_log()[s] + 1 by {
                    if s != id as int {
                        assert(self.consumed_log()[s] == old(self).consumed_log()[s]);
                    }
                }
                assert(self.free_slots()[self.free_slots().len() - 1] == id);
                assert(self.free_slots().contains(id));
                assert forall|s: usize|
                    (s as int) < self.num_workers() implies (
                #[trigger] self.free_slots().contains(s) <==> self.sent_log()[s as int].len()
                    == self.consumed_log()[s as int]) by {
                    if s != id {
                        lemma_push_contains_other(old(self).free_slots(), id, s);
                    }
                }
            }
            Ok(value)
        } else {
            Err(DispatchError::ProtocolViolation { slot: id })
        }
    }

    /// Dispatches one unit of work to some free worker, blocking the caller
    /// until a worker is free. If the free list is empty, one blocking receive
    /// on the shared channel is enough: a tagged result always means its
    /// worker just became free, so its value is buffered and its slot is
    /// dispatched to. Which free slot is picked is deliberately left open.
    ///
    /// On success, and when the chosen worker's receiving end turned out to be
    /// gone, exactly one slot's sent log grows by `value`; the send failure is
    /// surfaced as `WorkerUnavailable` with that slot. A closed or misbehaving
    /// result channel is surfaced before anything is dispatched.
    pub fn send_child(&mut self, value: T) -> (r: Result<(), DispatchError>)
        requires
            old(self).wf(),
        ensures
            final(self).wf(),
            final(self).num_workers() == old(self).num_workers(),
            final(self).timeout_millis() == old(self).timeout_millis(),
            final(self).broadcast_log() == old(self).broadcast_log(),
            old(self).buffered().is_prefix_of(final(self).buffered()),
            final(self).buffered().len() <= old(self).buffered().len() + 1,
            (r == Ok::<(), DispatchError>(()) || r matches Err(
                DispatchError::WorkerUnavailable { .. },
            )) ==> exists|i: int|
                0 <= i < old(self).num_workers() && final(self).sent_log() == old(
                    self,
                ).sent_log().update(i, #[trigger] old(self).sent_log()[i].push(value)),
            r matches Err(DispatchError::WorkerUnavailable { slot }) ==> (slot as int) < old(
                self,
            ).num_workers() && final(self).sent_log() == old(self).sent_log().update(
                slot as int,
                old(self).sent_log()[slot as int].push(value),
            ),
            (r matches Err(DispatchError::ChannelClosed) || r matches Err(
                DispatchError::ProtocolViolation { .. },
            )) ==> {
                &&& final(self).sent_log() == old(self).sent_log()
                &&& final(self).consumed_log() == old(self).consumed_log()
                &&& final(self).free_slots() == old(self).free_slots()
                &&& final(self).buffered() == old(self).buffered()
            },
            old(self).free_slots().len() > 0 ==> {
                &&& (r == Ok::<(), DispatchError>(()) || r matches Err(
                    DispatchError::WorkerUnavailable { .. },
                ))
                &&& final(self).consumed_log() == old(self).consumed_log()
                &&& final(self).buffered() == old(self).buffered()
                &&& final(self).free_slots().len() == old(self).free_slots().len() - 1
                &&& forall|x: usize|
                    final(self).free_slots().contains(x) ==> old(self).free_slots().contains(x)
            },
            (old(self).free_slots().len() == 0 && (r == Ok::<(), DispatchError>(())
                || r matches Err(DispatchError::WorkerUnavailable { .. }))) ==> exists|i: int|
                0 <= i < old(self).num_workers() && {
                    &&& final(self).sent_log() == old(self).sent_log().update(
                        i,
                        #[trigger] old(self).sent_log()[i].push(value),
                    )
                    &&& final(self).consumed_log() == old(self).consumed_log().update(
                        i,
                        (old(self).consumed_log()[i] + 1) as nat,
                    )
                    &&& final(self).buffered().len() == old(self).buffered().len() + 1
                    &&& final(self).free_slots().len() == 0
                },
    {
        if self.free_list.len() == 0 {
            match recv_blocking(&self.receiver) {
                BlockingOutcome::Received(cp) => {
                    match self.note_result(cp) {
                        Ok(v) => {
                            self.ret_values.push_back(v);
                        },
                        Err(e) => {
                            return Err(e);
                        },
                    }
                },
                BlockingOutcome::Disconnected => {
                    return Err(DispatchError::ChannelClosed);
                },
            }
        }
        let ghost mid = *self;
        let id = self.free_list.pop().unwrap();
        proof {
            assert(mid.wf());
            assert(id == mid.free_slots().last());
            assert(mid.free_slots().contains(id));
            assert((id as int) < self.num_workers());
            assert(mid.sent_log()[id as int].len() == mid.consumed_log()[id as int]);
            lemma_drop_last_no_duplicates(mid.free_slots());
            lemma_drop_last_excludes_last(mid.free_slots());
            assert(self.free_slots() =~= mid.free_slots().drop_last());
        }
        self.sent = Ghost(self.sent@.update(id as int, self.sent@[id as int].push(value)));
        proof {
            assert(!self.free_slots().contains(id));
            assert forall|s: usize|
                (s as int) < self.num_workers() implies (#[trigger] self.free_slots().contains(s)
                <==> self.sent_log()[s as int].len() == self.consumed_log()[s as int]) by {
                if s != id {
                    lemma_drop_last_contains_other(mid.free_slots(), s);
                }
            }
        }
        let ok = send_on(&self.to_child[id], Msg::Work(value));
        proof {
            assert(final(self).sent_log() == old(self).sent_log().update(
                id as int,
                old(self).sent_log()[id as int].push(value),
            ));
        }
        if ok {
            Ok(())
        } else {
            Err(DispatchError::WorkerUnavailable { slot: id })
        }
    }

    /// Drains one result. A buffered value is popped and returned at once,
    /// front first, without touching the channel. With an empty buffer, one
    /// receive bounded by the configured timeout is attempted: a result
    /// returns its worker to the free list and its value to the caller; a
    /// timeout returns nothing, which is the expected outcome when no worker
    /// has finished yet.
    pub fn recv(&mut self) -> (r: Result<Option<T>, DispatchError>)
        requires
            old(self).wf(),
        ensures
            final(self).wf(),
            final(self).num_workers() == old(self).num_workers(),
            final(self).timeout_millis() == old(self).timeout_millis(),
            final(self).sent_log() == old(self).sent_log(),
            final(self).broadcast_log() == old(self).broadcast_log(),
            old(self).buffered().len() > 0 ==> {
                &&& r == Ok::<Option<T>, DispatchError>(Some(old(self).buffered()[0]))
                &&& final(self).buffered() == old(self).buffered().subrange(
                    1,
                    old(self).buffered().len() as int,
                )
                &&& final(self).consumed_log() == old(self).consumed_log()
                &&& final(self).free_slots() == old(self).free_slots()
            },
            old(self).buffered().len() == 0 ==> final(self).buffered() == old(self).buffered()
                && match r {
                Ok(Some(_)) => exists|j: int|
                    0 <= j < old(self).num_workers() && {
                        &&& final(self).free_slots() == old(self).free_slots().push(j as usize)
                        &&& final(self).consumed_log() == old(self).consumed_log().update(
                            j,
                            (#[trigger] old(self).consumed_log()[j] + 1) as nat,
                        )
                    },
                Ok(None) => final(self).consumed_log() == old(self).consumed_log()
                    && final(self).free_slots() == old(self).free_slots(),
                Err(e) => {
                    &&& final(self).consumed_log() == old(self).consumed_log()
                    &&& final(self).free_slots() == old(self).free_slots()
                    &&& (e is ChannelClosed || e is ProtocolViolation)
                },
            },
    {
        match self.ret_values.pop_front() {
            Some(v) => Ok(Some(v)),
            None => {
                match recv_timeout_ms(&self.receiver, self.timeout_ms) {
                    RecvOutcome::Received(cp) => {
                        let ghost cid = cp.id as int;
                        match self.note_result(cp) {
                            Ok(v) => {
                                proof {
                                    assert(0 <= cid < old(self).num_workers());
                                }
                                Ok(Some(v))
                            },
                            Err(e) => Err(e),
                        }
                    },
                    RecvOutcome::TimedOut => Ok(None),
                    RecvOutcome::Disconnected => Err(DispatchError::ChannelClosed),
                }
            },
        }
    }

    /// Broadcasts one message: hands a clone of `msg` to every registered
    /// worker's channel in slot order, free or busy, stopping at the first
    /// worker whose receiving end is gone. Meant for out-of-band control such
    /// as `Msg::Terminate`; it touches neither the free list nor the result
    /// buffer, and a busy worker sees the message only after finishing its
    /// current item.
    ///
    /// On success every slot's broadcast log grows by `msg`; on failure the
    /// error names the first dead slot, exactly the slots before it were
    /// handed the message, and the rest were not.
    pub fn send_all_child(&mut self, msg: Msg<T>) -> (r: Result<(), DispatchError>) where
        T: Clone
        requires
            old(self).wf(),
        ensures
            final(self).wf(),
            final(self).num_workers() == old(self).num_workers(),
            final(self).timeout_millis() == old(self).timeout_millis(),
            final(self).buffered() == old(self).buffered(),
            final(self).free_slots() == old(self).free_slots(),
            final(self).sent_log() == old(self).sent_log(),
            final(self).consumed_log() == old(self).consumed_log(),
            r == Ok::<(), DispatchError>(()) || r matches Err(
                DispatchError::WorkerUnavailable { .. },
            ),
            r == Ok::<(), DispatchError>(()) ==> forall|s: int|
                0 <= s < old(self).num_workers() ==> #[trigger] final(self).broadcast_log()[s]
                    == old(self).broadcast_log()[s].push(msg),
            r matches Err(DispatchError::WorkerUnavailable { slot }) ==> {
                &&& (slot as int) < old(self).num_workers()
                &&& forall|s: int|
                    0 <= s < slot as int ==> #[trigger] final(self).broadcast_log()[s] == old(
                        self,
                    ).broadcast_log()[s].push(msg)
                &&& forall|s: int|
                    slot as int <= s < old(self).num_workers()
                        ==> #[trigger] final(self).broadcast_log()[s] == old(self).broadcast_log()[s]
            },
    {
        let mut i: usize = 0;
        while i < self.to_child.len()
            invariant
                i <= self.to_child@.len(),
                self.wf(),
                self.to_child@ == old(self).to_child@,
                self.num_workers() == old(self).num_workers(),
                self.timeout_millis() == old(self).timeout_millis(),
                self.buffered() == old(self).buffered(),
                self.free_slots() == old(self).free_slots(),
                self.sent_log() == old(self).sent_log(),
                self.consumed_log() == old(self).consumed_log(),
                forall|s: int|
                    0 <= s < i ==> #[trigger] self.broadcast_log()[s] == old(
                        self,
                    ).broadcast_log()[s].push(msg),
                forall|s: int|
                    i <= s < old(self).num_workers() ==> #[trigger] self.broadcast_log()[s] == old(
                        self,
                    ).broadcast_log()[s],
            decreases self.to_child@.len() - i,
        {
            if !send_on(&self.to_child[i], msg.clone()) {
                return Err(DispatchError::WorkerUnavailable { slot: i });
            }
            self.broadcasts = Ghost(
                self.broadcasts@.update(i as int, self.broadcasts@[i as int].push(msg)),
            );
            i = i + 1;
        }
        Ok(())
    }
}

/// Dropping the last element of a duplicate-free sequence keeps it
/// duplicate-free.
proof fn lemma_drop_last_no_duplicates(s: Seq<usize>)
    requires
        s.len() > 0,
        s.no_duplicates(),
    ensures
        s.drop_last().no_duplicates(),
{
}

/// A duplicate-free sequence without its last element no longer holds that
/// element.
proof fn lemma_drop_last_excludes_last(s: Seq<usize>)
    requires
        s.len() > 0,
        s.no_duplicates(),
    ensures
        !s.drop_last().contains(s.last()),
{
    assert forall|k: int| 0 <= k < s.drop_last().len() implies s.drop_last()[k] != s.last() by {
        assert(s[k] == s.drop_last()[k]);
    }
}

/// A sequence without its last element holds any other value exactly when the
/// whole sequence does.
proof fn lemma_drop_last_contains_other(s: Seq<usize>, y: usize)
    requires
        s.len() > 0,
        y != s.last(),
    ensures
        s.drop_last().contains(y) <==> s.contains(y),
{
    if s.contains(y) {
        let k = choose|k: int| 0 <= k < s.len() && s[k] == y;
        assert(s.drop_last()[k] == y);
    }
    if s.drop_last().contains(y) {
        let k = choose|k: int| 0 <= k < s.drop_last().len() && s.drop_last()[k] == y;
        assert(s[k] == y);
    }
}

/// Whether the free list holds the given slot.
fn contains_slot(v: &Vec<usize>, x: usize) -> (r: bool)
    ensures
        r == v@.contains(x),
{
    let mut i: usize = 0;
    while i < v.len()
        invariant
            i <= v@.len(),
            forall|j: int| 0 <= j < i ==> v@[j] != x,
        decreases v@.len() - i,
    {
        if v[i] == x {
            assert(v@.contains(x));
            return true;
        }
        i = i + 1;
    }
    false
}

/// Pushing a value that a duplicate-free sequence does not hold keeps it
/// duplicate-free.
proof fn lemma_push_fresh_keeps_no_duplicates(s: Seq<usize>, x: usize)
    requires
        s.no_duplicates(),
        !s.contains(x),
    ensures
        s.push(x).no_duplicates(),
{
    assert forall|i: int, j: int|
        0 <= i < s.push(x).len() && 0 <= j < s.push(x).len() && i != j implies s.push(x)[i]
        != s.push(x)[j] by {
        if i < s.len() && j < s.len() {
        } else if i < s.len() {
            assert(s[i] == s.push(x)[i]);
            assert(s.contains(s[i]));
        } else if j < s.len() {
            assert(s[j] == s.push(x)[j]);
            assert(s.contains(s[j]));
        }
    }
}

/// A pushed sequence holds a value other than the pushed one exactly when the
/// original did.
proof fn lemma_push_contains_other(s: Seq<usize>, x: usize, y: usize)
    requires
        y != x,
    ensures
        s.push(x).contains(y) <==> s.contains(y),
{
    if s.contains(y) {
        let k = choose|k: int| 0 <= k < s.len() && s[k] == y;
        assert(s.push(x)[k] == y);
    }
    if s.push(x).contains(y) {
        let k = choose|k: int| 0 <= k < s.push(x).len() && s.push(x)[k] == y;
        assert(s[k] == y);
    }
}

} // verus!
