//! Batching of object accesses: ids arrive on a bounded queue and are
//! collected, without duplicates, into batches of bounded size that are
//! flushed when full, when the flush interval has passed, or when the queue
//! closes.

use std::collections::HashSet;
use vstd::prelude::*;

verus! {

broadcast use vstd::std_specs::hash::group_hash_axioms;

/// How many accesses the queue holds before further ones are dropped.
pub const CHANNEL_CAPACITY: usize = 4096;

/// The most distinct object ids one batch holds.
pub const MAX_BATCH_SIZE: usize = 4096;

/// Seconds after the first access of a batch at which it is flushed.
pub const FLUSH_INTERVAL_SECS: u64 = 1;

/// What happened while a batch waited for more accesses.
#[derive(Clone, Copy, Debug, PartialEq, Eq, Structural)]
pub enum BatchEvent {
    /// An access of this object id arrived.
    Received(i64),
    /// The queue closed: no more accesses will arrive.
    Closed,
    /// The flush interval ran out.
    DeadlineReached,
}

/// A batch of distinct object ids being collected.
pub struct AccessBatch {
    ids: HashSet<i64>,
}

impl View for AccessBatch {
    type V = Set<i64>;

    closed spec fn view(&self) -> Set<i64> {
        self.ids@
    }
}

/// The batch and the number of events taken when collection starts from
/// `ids` and sees `events`: receipts are added until the batch is full, a
/// closing or deadline event is taken and ends it, or the events run out.
pub open spec fn run_batch(ids: Set<i64>, events: Seq<BatchEvent>) -> (Set<i64>, nat)
    decreases events.len(),
{
    if ids.len() >= MAX_BATCH_SIZE || events.len() == 0 {
        (ids, 0)
    } else {
        match events[0] {
            BatchEvent::Received(id) => {
                let (s, n) = run_batch(ids.insert(id), events.drop_first());
                (s, n + 1)
            },
            _ => (ids, 1),
        }
    }
}

/// The batch that collection starting from `first_id` gathers from `events`,
/// and how many events it takes.
pub open spec fn collected(first_id: i64, events: Seq<BatchEvent>) -> (Set<i64>, nat) {
    run_batch(set![first_id], events)
}

/// The object ids that the receipts among `events` carry.
pub open spec fn received_ids(events: Seq<BatchEvent>) -> Set<i64> {
    Set::new(|id: i64| events.contains(BatchEvent::Received(id)))
}

impl AccessBatch {
    #[verifier::type_invariant]
    spec fn inv(self) -> bool {
        &&& self.ids@.finite()
        &&& self.ids@.len() <= MAX_BATCH_SIZE
    }

    /// A batch holding only the access that opened it.
    pub fn new(first_id: i64) -> (r: AccessBatch)
        ensures
            r@ == set![first_id],
    {
        let mut ids: HashSet<i64> = HashSet::new();
        ids.insert(first_id);
        assert(ids@ =~= set![first_id]);
        assert(set![first_id].len() == 1) by {
            assert(set![first_id] =~= Set::<i64>::empty().insert(first_id));
        }
        AccessBatch { ids }
    }

    /// The number of distinct ids collected.
    pub fn len(&self) -> (r: usize)
        ensures
            r == self@.len(),
            r <= MAX_BATCH_SIZE,
    {
        proof {
            use_type_invariant(self);
        }
        self.ids.len()
    }

    /// Whether the batch takes further accesses: it is not full yet.
    pub fn wants_more(&self) -> (r: bool)
        ensures
            r == (self@.len() < MAX_BATCH_SIZE),
            self@.finite(),
    {
        proof {
            use_type_invariant(self);
        }
        self.ids.len() < MAX_BATCH_SIZE
    }

    /// Takes one event; returns whether collection goes on. A receipt adds
    /// its id (once, however often it arrives); the queue closing or the
    /// deadline ends collection and leaves the batch as it is.
    pub fn on_event(&mut self, event: BatchEvent) -> (go_on: bool)
        requires
            old(self)@.len() < MAX_BATCH_SIZE,
        ensures
            match event {
                BatchEvent::Received(id) => final(self)@ == old(self)@.insert(id) && go_on,
                _ => final(self)@ == old(self)@ && !go_on,
            },
            final(self)@.len() <= MAX_BATCH_SIZE,
    {
        proof {
            use_type_invariant(&*self);
        }
        match event {
            BatchEvent::Received(id) => {
                let mut ids: HashSet<i64> = HashSet::new();
                std::mem::swap(&mut ids, &mut self.ids);
                let ghost before = ids@;
                ids.insert(id);
                assert(ids@.len() <= before.len() + 1);
                self.ids = ids;
                true
            },
            _ => false,
        }
    }

    /// The collected ids.
    pub fn into_ids(self) -> (r: HashSet<i64>)
        ensures
            r@ == self@,
            r@.finite(),
            r@.len() <= MAX_BATCH_SIZE,
    {
        proof {
            use_type_invariant(&self);
        }
        self.ids
    }
}

/// Collects a batch opened by `first_id` from `events`, in order, as the
/// access worker does with what the queue and the flush timer deliver;
/// returns the ids and how many events were taken. Collection also stops
/// when the events run out.
pub fn collect_batch(first_id: i64, events: &[BatchEvent]) -> (r: (HashSet<i64>, usize))
    ensures
        (r.0@, r.1 as nat) == collected(first_id, events@),
{
    let mut batch = AccessBatch::new(first_id);
    let mut taken: usize = 0;
    let mut done = false;
    assert(events@.skip(0) =~= events@);
    while !done && taken < events.len()
        invariant
            taken <= events.len(),
            done ==> collected(first_id, events@) == (batch@, taken as nat),
            !done ==> collected(first_id, events@) == ({
                let (s, n) = run_batch(batch@, events@.skip(taken as int));
                (s, (n + taken) as nat)
            }),
        decreases events.len() - taken, if done { 0int } else { 1int },
    {
        let ghost rest = events@.skip(taken as int);
        assert(rest[0] == events@[taken as int]);
        assert(rest.drop_first() =~= events@.skip(taken + 1));
        if !batch.wants_more() {
            done = true;
        } else {
            let event = events[taken];
            let go_on = batch.on_event(event);
            taken = taken + 1;
            if !go_on {
                done = true;
            }
        }
    }
    if !done {
        assert(events@.skip(taken as int).len() == 0);
    }
    (batch.into_ids(), taken)
}

/// A batch never holds more than `MAX_BATCH_SIZE` ids, and holds the first.
pub proof fn lemma_batch_bounded(ids: Set<i64>, events: Seq<BatchEvent>)
    requires
        ids.finite(),
        ids.len() <= MAX_BATCH_SIZE,
    ensures
        run_batch(ids, events).0.finite(),
        run_batch(ids, events).0.len() <= MAX_BATCH_SIZE,
        ids.subset_of(run_batch(ids, events).0),
        run_batch(ids, events).1 <= events.len(),
    decreases events.len(),
{
    if ids.len() < MAX_BATCH_SIZE && events.len() > 0 {
        if let BatchEvent::Received(id) = events[0] {
            lemma_batch_bounded(ids.insert(id), events.drop_first());
        }
    }
}

/// The batch holds exactly the starting ids and the ids of the receipts it
/// took, each once.
pub proof fn lemma_batch_contents(ids: Set<i64>, events: Seq<BatchEvent>)
    ensures
        run_batch(ids, events).1 <= events.len(),
        run_batch(ids, events).0 == ids.union(
            received_ids(events.take(run_batch(ids, events).1 as int)),
        ),
    decreases events.len(),
{
    let (s, n) = run_batch(ids, events);
    if ids.len() >= MAX_BATCH_SIZE || events.len() == 0 {
        assert(received_ids(events.take(0)) =~= Set::empty());
        assert(ids.union(Set::empty()) =~= ids);
    } else {
        match events[0] {
            BatchEvent::Received(id) => {
                let t = events.drop_first();
                lemma_batch_contents(ids.insert(id), t);
                let m = (n - 1) as int;
                let e = events.take(n as int);
                let f = t.take(m);
                assert(e =~= seq![events[0]] + f);
                assert forall|x: i64| #[trigger] received_ids(e).contains(x) == (x == id
                    || received_ids(f).contains(x)) by {
                    if f.contains(BatchEvent::Received(x)) {
                        let k = choose|k: int| 0 <= k < f.len() && f[k] == BatchEvent::Received(x);
                        assert(e[k + 1] == BatchEvent::Received(x));
                    }
                    if x == id {
                        assert(e[0] == BatchEvent::Received(x));
                    }
                    if e.contains(BatchEvent::Received(x)) {
                        let k = choose|k: int| 0 <= k < e.len() && e[k] == BatchEvent::Received(x);
                        if k > 0 {
                            assert(f[k - 1] == BatchEvent::Received(x));
                        }
                    }
                }
                assert(received_ids(e) =~= received_ids(f).insert(id));
                assert(s =~= ids.union(received_ids(e)));
            },
            _ => {
                assert(events.take(1) =~= seq![events[0]]);
                assert(received_ids(events.take(1)) =~= Set::empty());
                assert(ids.union(Set::empty()) =~= ids);
            },
        }
    }
}

/// Collection takes receipts one after another and stops at the first
/// closing or deadline event, which it takes; events after the point where
/// the batch became full are left for the next batch.
pub proof fn lemma_batch_stops(ids: Set<i64>, events: Seq<BatchEvent>)
    requires
        ids.finite(),
        ids.len() <= MAX_BATCH_SIZE,
    ensures
        ({
            let (s, n) = run_batch(ids, events);
            &&& forall|k: int| 0 <= k < n - 1 ==> #[trigger] events[k] is Received
            &&& n < events.len() ==> s.len() == MAX_BATCH_SIZE || (n > 0 && !(events[n - 1] is Received))
            &&& (n > 0 && !(events[n - 1] is Received)) ==> s.len() < MAX_BATCH_SIZE
        }),
    decreases events.len(),
{
    if ids.len() < MAX_BATCH_SIZE && events.len() > 0 {
        if let BatchEvent::Received(id) = events[0] {
            let t = events.drop_first();
            lemma_batch_stops(ids.insert(id), t);
            lemma_batch_contents(ids.insert(id), t);
            let (s, n) = run_batch(ids, events);
            assert forall|k: int| 0 <= k < n - 1 implies #[trigger] events[k] is Received by {
                if k > 0 {
                    assert(events[k] == t[k - 1]);
                }
            }
            if n > 1 {
                assert(events[n - 1] == t[n - 2]);
            }
        }
    }
}

/// A batch opened by `first_id` holds the first id and the ids of the
/// receipts it took, each once, and never more than `MAX_BATCH_SIZE` of
/// them; it takes receipts until it is full or a closing or deadline event
/// comes, which it takes too.
pub proof fn lemma_collected_batch(first_id: i64, events: Seq<BatchEvent>)
    ensures
        ({
            let (s, n) = collected(first_id, events);
            &&& n <= events.len()
            &&& s == set![first_id].union(received_ids(events.take(n as int)))
            &&& s.finite()
            &&& s.contains(first_id)
            &&& s.len() <= MAX_BATCH_SIZE
            &&& forall|k: int| 0 <= k < n - 1 ==> #[trigger] events[k] is Received
            &&& n < events.len() ==> s.len() == MAX_BATCH_SIZE || (n > 0 && !(
            events[n - 1] is Received))
        }),
{
    let ids = set![first_id];
    assert(ids.len() == 1) by {
        assert(ids =~= Set::<i64>::empty().insert(first_id));
    }
    lemma_batch_bounded(ids, events);
    lemma_batch_contents(ids, events);
    lemma_batch_stops(ids, events);
}

} // verus!
