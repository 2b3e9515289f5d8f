use vstd::prelude::*;

use vstd::set_lib::lemma_int_range;
use vstd::set_lib::lemma_len_subset;
use vstd::set_lib::set_int_range;

use crate::dispatcher::MultiChannel;

verus! {

/// A ghost snapshot of the whole dispatch protocol, workers included: per
/// worker slot, the work items the dispatcher has sent it (in order), the
/// items the worker has taken off its channel (in order), how many results it
/// has produced, and how many of those the dispatcher has consumed. The
/// dispatcher's own state sees only `sent` and `consumed`; `taken` and `done`
/// live on the worker side of the channels.
pub ghost struct ProtocolState<T> {
    pub sent: Seq<Seq<T>>,
    pub taken: Seq<Seq<T>>,
    pub done: Seq<nat>,
    pub consumed: Seq<nat>,
}

impl<T> ProtocolState<T> {
    /// The size of the pool.
    pub open spec fn num_workers(self) -> int {
        self.sent.len() as int
    }

    /// How many items sent to slot `i` have not yet come back as consumed
    /// results: the dispatcher's view of "in flight".
    pub open spec fn outstanding(self, i: int) -> int {
        self.sent[i].len() - self.consumed[i]
    }

    /// The slots with an item in flight.
    pub open spec fn in_flight_slots(self) -> Set<int> {
        Set::new(|i: int| 0 <= i < self.num_workers() && self.outstanding(i) > 0)
    }

    /// The protocol invariant. Per slot: results are consumed no faster than
    /// they are produced, produced no faster than items are taken, items are
    /// taken off the channel in exactly the order they were sent, and a new
    /// item is sent only after the previous result was consumed, so at most
    /// one is ever outstanding.
    pub open spec fn inv(self) -> bool {
        &&& self.taken.len() == self.num_workers()
        &&& self.done.len() == self.num_workers()
        &&& self.consumed.len() == self.num_workers()
        &&& forall|i: int|
            0 <= i < self.num_workers() ==> (#[trigger] self.taken[i]).len() <= self.sent[i].len()
        &&& forall|i: int|
            0 <= i < self.num_workers() ==> #[trigger] self.taken[i] == self.sent[i].take(
                self.taken[i].len() as int,
            )
        &&& forall|i: int|
            0 <= i < self.num_workers() ==> #[trigger] self.done[i] <= self.taken[i].len()
        &&& forall|i: int|
            0 <= i < self.num_workers() ==> #[trigger] self.consumed[i] <= self.done[i]
        &&& forall|i: int|
            0 <= i < self.num_workers() ==> (#[trigger] self.sent[i]).len() <= self.consumed[i]
                + 1
    }

    /// One more worker joins the pool, with nothing sent, taken, done or
    /// consumed.
    pub open spec fn register(self) -> ProtocolState<T> {
        ProtocolState {
            sent: self.sent.push(Seq::empty()),
            taken: self.taken.push(Seq::empty()),
            done: self.done.push(0),
            consumed: self.consumed.push(0),
        }
    }

    /// The dispatcher may hand slot `i` a new item only while nothing sent to
    /// it is outstanding: exactly the free-list test.
    pub open spec fn can_dispatch(self, i: int) -> bool {
        0 <= i < self.num_workers() && self.outstanding(i) == 0
    }

    /// The dispatcher sends `v` to slot `i`. No other slot's channel is
    /// touched.
    pub open spec fn dispatch(self, i: int, v: T) -> ProtocolState<T> {
        ProtocolState { sent: self.sent.update(i, self.sent[i].push(v)), ..self }
    }

    /// Worker `i` can take a message exactly when one is pending on its
    /// channel.
    pub open spec fn can_take(self, i: int) -> bool {
        0 <= i < self.num_workers() && self.taken[i].len() < self.sent[i].len()
    }

    /// Worker `i` takes the oldest pending item off its channel: channels
    /// deliver in send order.
    pub open spec fn take(self, i: int) -> ProtocolState<T> {
        ProtocolState {
            taken: self.taken.update(i, self.taken[i].push(self.sent[i][self.taken[i].len() as int])),
            ..self
        }
    }

    /// Worker `i` can produce a result only for an item it has taken and not
    /// yet answered.
    pub open spec fn can_finish(self, i: int) -> bool {
        0 <= i < self.num_workers() && self.done[i] < self.taken[i].len()
    }

    /// Worker `i` finishes its current item and reports one tagged result.
    pub open spec fn finish(self, i: int) -> ProtocolState<T> {
        ProtocolState { done: self.done.update(i, (self.done[i] + 1) as nat), ..self }
    }

    /// The dispatcher can consume a result of slot `i` only when the worker
    /// has produced one that was not consumed yet.
    pub open spec fn can_consume(self, i: int) -> bool {
        0 <= i < self.num_workers() && self.consumed[i] < self.done[i]
    }

    /// The dispatcher consumes one result of slot `i`.
    pub open spec fn consume(self, i: int) -> ProtocolState<T> {
        ProtocolState { consumed: self.consumed.update(i, (self.consumed[i] + 1) as nat), ..self }
    }
}

/// Registration preserves the protocol invariant.
pub proof fn lemma_register_preserves_inv<T>(s: ProtocolState<T>)
    requires
        s.inv(),
    ensures
        s.register().inv(),
{
    let t = s.register();
    assert forall|i: int|
        0 <= i < t.num_workers() implies #[trigger] t.taken[i] == t.sent[i].take(
        t.taken[i].len() as int,
    ) by {
        if i < s.num_workers() {
        } else {
            assert(t.taken[i] =~= t.sent[i].take(0));
        }
    }
}

/// Dispatching to a free slot preserves the protocol invariant.
pub proof fn lemma_dispatch_preserves_inv<T>(s: ProtocolState<T>, i: int, v: T)
    requires
        s.inv(),
        s.can_dispatch(i),
    ensures
        s.dispatch(i, v).inv(),
{
    let t = s.dispatch(i, v);
    assert forall|j: int|
        0 <= j < t.num_workers() implies #[trigger] t.taken[j] == t.sent[j].take(
        t.taken[j].len() as int,
    ) by {
        if j == i {
            assert(s.taken[i].len() <= s.sent[i].len());
            assert(t.sent[i].take(t.taken[i].len() as int) =~= s.sent[i].take(
                s.taken[i].len() as int,
            ));
        }
    }
}

/// A worker taking the oldest pending item preserves the protocol invariant.
pub proof fn lemma_take_preserves_inv<T>(s: ProtocolState<T>, i: int)
    requires
        s.inv(),
        s.can_take(i),
    ensures
        s.take(i).inv(),
{
    let t = s.take(i);
    assert forall|j: int|
        0 <= j < t.num_workers() implies #[trigger] t.taken[j] == t.sent[j].take(
        t.taken[j].len() as int,
    ) by {
        if j == i {
            assert(t.taken[i] =~= t.sent[i].take(t.taken[i].len() as int));
        }
    }
}

/// A worker finishing its current item preserves the protocol invariant.
pub proof fn lemma_finish_preserves_inv<T>(s: ProtocolState<T>, i: int)
    requires
        s.inv(),
        s.can_finish(i),
    ensures
        s.finish(i).inv(),
{
}

/// The dispatcher consuming a pending result preserves the protocol
/// invariant, and the slot it came from has nothing outstanding afterwards:
/// a result always means its worker just became free.
pub proof fn lemma_consume_preserves_inv<T>(s: ProtocolState<T>, i: int)
    requires
        s.inv(),
        s.can_consume(i),
    ensures
        s.consume(i).inv(),
        s.consume(i).outstanding(i) == 0,
{
}

/// For a pool of K workers, at most K work items are in flight at any
/// instant: no slot ever has more than one item outstanding, and the slots
/// with one are a subset of the K slots.
pub proof fn lemma_at_most_k_in_flight<T>(s: ProtocolState<T>)
    requires
        s.inv(),
    ensures
        forall|i: int| 0 <= i < s.num_workers() ==> #[trigger] s.outstanding(i) <= 1,
        s.in_flight_slots().finite(),
        s.in_flight_slots().len() <= s.num_workers(),
{
    lemma_int_range(0, s.num_workers());
    assert(s.in_flight_slots().subset_of(set_int_range(0, s.num_workers())));
    lemma_len_subset(s.in_flight_slots(), set_int_range(0, s.num_workers()));
}

/// Per-worker ordering: at every reachable state, the sequence of items a
/// worker has received is exactly the prefix, in order, of the sequence the
/// dispatcher sent to it.
pub proof fn lemma_per_worker_ordering<T>(s: ProtocolState<T>, i: int)
    requires
        s.inv(),
        0 <= i < s.num_workers(),
    ensures
        s.taken[i] == s.sent[i].take(s.taken[i].len() as int),
        forall|k: int| 0 <= k < s.taken[i].len() ==> #[trigger] s.taken[i][k] == s.sent[i][k],
{
    assert forall|k: int|
        0 <= k < s.taken[i].len() implies #[trigger] s.taken[i][k] == s.sent[i][k] by {
        assert(s.taken[i][k] == s.sent[i].take(s.taken[i].len() as int)[k]);
    }
}

/// A dispatched item goes to exactly one worker: the dispatch step leaves
/// every other slot's channel, and all worker-side state, untouched.
pub proof fn lemma_dispatch_targets_one_worker<T>(s: ProtocolState<T>, i: int, v: T)
    requires
        s.can_dispatch(i),
    ensures
        s.dispatch(i, v).sent[i] == s.sent[i].push(v),
        forall|j: int|
            0 <= j < s.num_workers() && j != i ==> #[trigger] s.dispatch(i, v).sent[j] == s.sent[j],
        s.dispatch(i, v).taken == s.taken,
        s.dispatch(i, v).done == s.done,
        s.dispatch(i, v).consumed == s.consumed,
{
}

/// Sent items and tagged results stand in bijection, up to the at most one
/// item per worker still in flight: for every slot, results consumed never
/// outnumber results produced, results produced never outnumber items
/// received, items received never outnumber items sent, and items sent exceed
/// results consumed by at most one.
pub proof fn lemma_results_match_received<T>(s: ProtocolState<T>, i: int)
    requires
        s.inv(),
        0 <= i < s.num_workers(),
    ensures
        s.consumed[i] <= s.done[i] <= s.taken[i].len() <= s.sent[i].len() <= s.consumed[i] + 1,
{
}

/// The dispatcher's own state, seen as a protocol snapshot: what it has not
/// consumed it cannot tell apart, so worker-side progress is read as "taken
/// and answered exactly what was consumed".
pub open spec fn observed_state<T>(d: &MultiChannel<T>) -> ProtocolState<T> {
    ProtocolState {
        sent: d.sent_log(),
        taken: Seq::new(
            d.sent_log().len(),
            |i: int| d.sent_log()[i].take(d.consumed_log()[i] as int),
        ),
        done: d.consumed_log(),
        consumed: d.consumed_log(),
    }
}

/// A well-formed dispatcher's observed state satisfies the protocol
/// invariant, so every law above holds of the dispatcher as built: in
/// particular at most K items are in flight for a pool of K workers.
pub proof fn lemma_observed_state_inv<T>(d: &MultiChannel<T>)
    requires
        d.wf(),
    ensures
        observed_state(d).inv(),
        observed_state(d).num_workers() == d.num_workers(),
{
    let s = observed_state(d);
    assert forall|i: int|
        0 <= i < s.num_workers() implies (#[trigger] s.taken[i]).len() <= s.sent[i].len() by {
        assert(d.consumed_log()[i] <= d.sent_log()[i].len());
    }
}

/// A pool of K workers never has more than K items in flight, and the slots
/// with an item in flight are exactly those the dispatcher's free list does
/// not hold.
pub proof fn lemma_dispatcher_in_flight<T>(d: &MultiChannel<T>)
    requires
        d.wf(),
    ensures
        observed_state(d).in_flight_slots().finite(),
        observed_state(d).in_flight_slots().len() <= d.num_workers(),
        forall|s: usize|
            (s as int) < d.num_workers() ==> (observed_state(d).in_flight_slots().contains(
                s as int,
            ) <==> !(#[trigger] d.free_slots().contains(s))),
{
    lemma_observed_state_inv(d);
    lemma_at_most_k_in_flight(observed_state(d));
}

} // verus!
