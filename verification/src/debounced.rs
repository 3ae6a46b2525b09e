//! Debouncing of progress events: isolated events are emitted at once (the speed
//! lane), rapid events only after a quiet period (the debounce lane), and a queue
//! close to full is coalesced.
//!
//! [`DebouncedProgressStream`] holds the decisions of the stream as plain state;
//! the caller owns the channel and the timer, feeds received events in with
//! [`DebouncedProgressStream::offer`] and drives [`DebouncedProgressStream::poll_step`].
//! Times are milliseconds on a monotonic clock, supplied by the caller.

use vstd::prelude::*;
use vstd::multiset::Multiset;

verus! {

/// Metrics of the debounced stream.
#[derive(Debug, Clone, Copy)]
pub struct DebouncedMetrics {
    /// Events accepted from the receiver
    pub events_processed: u64,
    /// Events delayed or coalesced
    pub events_debounced: u64,
    /// Events emitted at once (speed lane)
    pub events_immediate: u64,
    /// Current length of the event queue
    pub queue_length: usize,
    /// Capacity of the event queue
    pub queue_capacity: usize,
    /// Whether an event waits for the delay to expire
    pub has_pending_item: bool,
}

/// What one step of polling the stream produced.
#[derive(Debug)]
pub enum PollStep<T> {
    /// An event to emit
    Ready(T),
    /// The receiver is disconnected and nothing is left: the stream ended
    End,
    /// Nothing to do until more events arrive
    Pending,
    /// An event was held back; poll again (the delay timer restarts)
    Again,
}

/// The decision state of a debounced progress stream.
#[derive(Debug)]
pub struct DebouncedProgressStream<T> {
    queue: Vec<T>,
    queue_capacity: usize,
    delay_ms: u64,
    last_item: Option<T>,
    last_event_ms: Option<u64>,
    events_processed: u64,
    events_debounced: u64,
    events_immediate: u64,
}

/// Three quarters of the capacity, rounded down.
pub open spec fn nearly_full_mark(capacity: usize) -> int {
    (capacity * 3) / 4
}

impl<T> DebouncedProgressStream<T> {
    /// The queued events, oldest first.
    pub closed spec fn queued(&self) -> Seq<T> {
        self.queue@
    }

    /// The event waiting for the delay to expire, if any.
    pub closed spec fn pending(&self) -> Option<T> {
        self.last_item
    }

    /// Time of the last emitted or held event.
    pub closed spec fn last_event(&self) -> Option<u64> {
        self.last_event_ms
    }

    /// The capacity of the queue.
    pub closed spec fn capacity(&self) -> usize {
        self.queue_capacity
    }

    /// The delay before a held event is emitted.
    pub closed spec fn delay(&self) -> u64 {
        self.delay_ms
    }

    /// (processed, debounced, immediate) event counts.
    pub closed spec fn counts(&self) -> (u64, u64, u64) {
        (self.events_processed, self.events_debounced, self.events_immediate)
    }

    /// The stream's state is consistent: the queue is within its capacity and the
    /// counters have room to count every queued event once more.
    pub closed spec fn wf(&self) -> bool {
        &&& self.queue@.len() <= self.queue_capacity
        &&& self.queue_capacity * 3 <= usize::MAX
    }

    /// A stream with an empty queue of `queue_capacity` events and a delay of
    /// `delay_ms`.
    pub fn new(delay_ms: u64, queue_capacity: usize) -> (s: Self)
        requires
            queue_capacity * 3 <= usize::MAX,
        ensures
            s.wf(),
            s.queued().len() == 0,
            s.pending() is None,
            s.last_event() is None,
            s.capacity() == queue_capacity,
            s.delay() == delay_ms,
            s.counts() == (0u64, 0u64, 0u64),
    {
        DebouncedProgressStream {
            queue: Vec::new(),
            queue_capacity,
            delay_ms,
            last_item: None,
            last_event_ms: None,
            events_processed: 0,
            events_debounced: 0,
            events_immediate: 0,
        }
    }

    /// Number of queued events.
    pub fn queue_len(&self) -> (n: usize)
        ensures
            n == self.queued().len(),
    {
        self.queue.len()
    }

    /// Capacity of the queue.
    pub fn queue_capacity(&self) -> (n: usize)
        ensures
            n == self.capacity(),
    {
        self.queue_capacity
    }

    /// Whether the queue holds more than three quarters of its capacity.
    pub fn is_queue_nearly_full(&self) -> (b: bool)
        requires
            self.wf(),
        ensures
            b == (self.queued().len() > nearly_full_mark(self.capacity())),
    {
        self.queue.len() > (self.queue_capacity * 3) / 4
    }

    /// The stream's metrics.
    pub fn metrics(&self) -> (m: DebouncedMetrics)
        ensures
            m.events_processed == self.counts().0,
            m.events_debounced == self.counts().1,
            m.events_immediate == self.counts().2,
            m.queue_length == self.queued().len(),
            m.queue_capacity == self.capacity(),
            m.has_pending_item == self.pending() is Some,
    {
        DebouncedMetrics {
            events_processed: self.events_processed,
            events_debounced: self.events_debounced,
            events_immediate: self.events_immediate,
            queue_length: self.queue.len(),
            queue_capacity: self.queue_capacity,
            has_pending_item: self.last_item.is_some(),
        }
    }

    /// Offer an event received from the channel: it is queued when the queue has
    /// room (and counted as processed); otherwise it is dropped and false is
    /// returned, and the caller stops receiving for this poll.
    pub fn offer(&mut self, event: T) -> (accepted: bool)
        requires
            old(self).wf(),
        ensures
            final(self).wf(),
            accepted == (old(self).queued().len() < old(self).capacity()),
            accepted ==> final(self).queued() == old(self).queued().push(event),
            !accepted ==> final(self).queued() == old(self).queued(),
            final(self).counts() == if accepted {
                (
                    crate::debounced::saturating_inc(old(self).counts().0),
                    old(self).counts().1,
                    old(self).counts().2,
                )
            } else {
                old(self).counts()
            },
            final(self).pending() == old(self).pending(),
            final(self).last_event() == old(self).last_event(),
            final(self).capacity() == old(self).capacity(),
            final(self).delay() == old(self).delay(),
    {
        if self.queue.len() < self.queue_capacity {
            self.queue.push(event);
            self.events_processed = inc_saturating(self.events_processed);
            true
        } else {
            false
        }
    }

    /// One step of polling at `now_ms`. In order: a held event whose delay expired
    /// is emitted (counted as debounced); on disconnection a held event is emitted,
    /// or the stream ends when the queue is empty; then the next queued event is
    /// taken (a queue more than three quarters full is coalesced into its latest
    /// event, the others counted as debounced). The first event, and an event more
    /// than the delay after the previous one, is emitted at once (speed lane);
    /// otherwise it replaces the held event and the delay restarts. With nothing
    /// held and nothing queued the stream is pending.
    pub fn poll_step(&mut self, now_ms: u64, delay_expired: bool, disconnected: bool) -> (step: PollStep<T>)
        requires
            old(self).wf(),
        ensures
            final(self).wf(),
            final(self).capacity() == old(self).capacity(),
            final(self).delay() == old(self).delay(),
            ({
                let p = old(self).pending();
                let q = old(self).queued();
                let c = old(self).counts();
                if p is Some && delay_expired {
                    &&& step == PollStep::Ready(p->0)
                    &&& final(self).pending() is None
                    &&& final(self).last_event() is None
                    &&& final(self).queued() == q
                    &&& final(self).counts() == (c.0, saturating_inc(c.1), c.2)
                } else if disconnected && p is Some {
                    &&& step == PollStep::Ready(p->0)
                    &&& final(self).pending() is None
                    &&& final(self).last_event() == old(self).last_event()
                    &&& final(self).queued() == q
                    &&& final(self).counts() == c
                } else if q.len() == 0 {
                    &&& (if disconnected {
                        step is End
                    } else if p is None {
                        step is Pending
                    } else {
                        step is Again
                    })
                    &&& final(self).pending() == p
                    &&& final(self).last_event() == old(self).last_event()
                    &&& final(self).queued() == q
                    &&& final(self).counts() == c
                } else {
                    let coalesce = q.len() > nearly_full_mark(old(self).capacity());
                    let e = if coalesce { q.last() } else { q[0] };
                    let debounced = if coalesce { saturating_add(c.1, (q.len() - 1) as nat) } else { c.1 };
                    &&& final(self).queued() == (if coalesce { Seq::empty() } else { q.drop_first() })
                    &&& final(self).last_event() == Some(now_ms)
                    &&& if speed_lane(old(self).last_event(), now_ms, old(self).delay()) {
                        &&& step == PollStep::Ready(e)
                        &&& final(self).pending() == p
                        &&& final(self).counts() == (c.0, debounced, saturating_inc(c.2))
                    } else {
                        &&& step is Again
                        &&& final(self).pending() == Some(e)
                        &&& final(self).counts() == (c.0, debounced, c.2)
                    }
                }
            }),
            emitted(step).add(final(self).held()).subset_of(old(self).held()),
            step is End ==> old(self).held().len() == 0,
            disconnected && !(step is End) ==> final(self).hold_measure() < old(self).hold_measure(),
            !(step is Ready) && old(self).hold_measure() > 0 ==> final(self).hold_measure() > 0,
    {
        let step = self.poll_step_once(now_ms, delay_expired, disconnected);
        proof {
            lemma_poll_conserves(
                old(self).queued(),
                old(self).pending(),
                nearly_full_mark(old(self).capacity()),
                self.queued(),
                self.pending(),
                step,
                delay_expired,
                disconnected,
                speed_lane(old(self).last_event(), now_ms, old(self).delay()),
            );
        }
        step
    }

    fn poll_step_once(&mut self, now_ms: u64, delay_expired: bool, disconnected: bool) -> (step: PollStep<T>)
        requires
            old(self).wf(),
        ensures
            final(self).wf(),
            final(self).capacity() == old(self).capacity(),
            final(self).delay() == old(self).delay(),
            ({
                let p = old(self).pending();
                let q = old(self).queued();
                let c = old(self).counts();
                if p is Some && delay_expired {
                    &&& step == PollStep::Ready(p->0)
                    &&& final(self).pending() is None
                    &&& final(self).last_event() is None
                    &&& final(self).queued() == q
                    &&& final(self).counts() == (c.0, saturating_inc(c.1), c.2)
                } else if disconnected && p is Some {
                    &&& step == PollStep::Ready(p->0)
                    &&& final(self).pending() is None
                    &&& final(self).last_event() == old(self).last_event()
                    &&& final(self).queued() == q
                    &&& final(self).counts() == c
                } else if q.len() == 0 {
                    &&& (if disconnected {
                        step is End
                    } else if p is None {
                        step is Pending
                    } else {
                        step is Again
                    })
                    &&& final(self).pending() == p
                    &&& final(self).last_event() == old(self).last_event()
                    &&& final(self).queued() == q
                    &&& final(self).counts() == c
                } else {
                    let coalesce = q.len() > nearly_full_mark(old(self).capacity());
                    let e = if coalesce { q.last() } else { q[0] };
                    let debounced = if coalesce { saturating_add(c.1, (q.len() - 1) as nat) } else { c.1 };
                    &&& final(self).queued() == (if coalesce { Seq::empty() } else { q.drop_first() })
                    &&& final(self).last_event() == Some(now_ms)
                    &&& if speed_lane(old(self).last_event(), now_ms, old(self).delay()) {
                        &&& step == PollStep::Ready(e)
                        &&& final(self).pending() == p
                        &&& final(self).counts() == (c.0, debounced, saturating_inc(c.2))
                    } else {
                        &&& step is Again
                        &&& final(self).pending() == Some(e)
                        &&& final(self).counts() == (c.0, debounced, c.2)
                    }
                }
            }),
    {
        if self.last_item.is_some() && delay_expired {
            self.last_event_ms = None;
            let item = self.last_item.take().unwrap();
            self.events_debounced = inc_saturating(self.events_debounced);
            return PollStep::Ready(item);
        }
        if disconnected {
            if self.last_item.is_some() {
                let item = self.last_item.take().unwrap();
                return PollStep::Ready(item);
            }
            if self.queue.len() == 0 {
                return PollStep::End;
            }
        }
        let event = if self.queue.len() > (self.queue_capacity * 3) / 4 {
            let n = self.queue.len();
            let last = self.queue.pop().unwrap();
            self.queue.clear();
            if n > 1 {
                self.events_debounced = add_saturating(self.events_debounced, (n - 1) as u64);
            }
            Some(last)
        } else if self.queue.len() > 0 {
            Some(self.queue.remove(0))
        } else {
            None
        };
        match event {
            Some(e) => {
                let immediate = match self.last_event_ms {
                    Some(t) => now_ms.saturating_sub(t) > self.delay_ms,
                    None => true,
                };
                self.last_event_ms = Some(now_ms);
                if immediate {
                    self.events_immediate = inc_saturating(self.events_immediate);
                    PollStep::Ready(e)
                } else {
                    self.last_item = Some(e);
                    PollStep::Again
                }
            },
            None => {
                if self.last_item.is_none() {
                    PollStep::Pending
                } else {
                    PollStep::Again
                }
            },
        }
    }
}

/// An optional event as a multiset of zero or one events.
pub open spec fn opt_events<T>(o: Option<T>) -> Multiset<T> {
    match o {
        Some(e) => Multiset::singleton(e),
        None => Multiset::empty(),
    }
}

/// The events a poll step emits: the ready event, if any.
pub open spec fn emitted<T>(step: PollStep<T>) -> Multiset<T> {
    match step {
        PollStep::Ready(e) => Multiset::singleton(e),
        _ => Multiset::empty(),
    }
}

/// The events a stream holds: those queued and the one held back.
pub open spec fn held_events<T>(q: Seq<T>, p: Option<T>) -> Multiset<T> {
    q.to_multiset().add(opt_events(p))
}

/// A measure of what a stream holds: each queued event counts twice, the held
/// event once.
pub open spec fn held_measure<T>(q: Seq<T>, p: Option<T>) -> nat {
    2 * q.len() + if p is Some { 1nat } else { 0nat }
}

impl<T> DebouncedProgressStream<T> {
    /// The events the stream holds, queued or held back.
    pub open spec fn held(&self) -> Multiset<T> {
        held_events(self.queued(), self.pending())
    }

    /// The measure of what the stream holds.
    pub open spec fn hold_measure(&self) -> nat {
        held_measure(self.queued(), self.pending())
    }
}

proof fn lemma_drop_first_events<T>(q: Seq<T>)
    requires
        q.len() > 0,
    ensures
        q.to_multiset() == q.drop_first().to_multiset().insert(q[0]),
{
    broadcast use vstd::seq_lib::group_to_multiset_ensures;
    broadcast use vstd::multiset::group_multiset_axioms;
    assert(q =~= seq![q[0]] + q.drop_first());
    vstd::seq_lib::lemma_multiset_commutative(seq![q[0]], q.drop_first());
    assert(seq![q[0]].to_multiset() =~= Multiset::singleton(q[0])) by {
        assert(seq![q[0]] =~= Seq::<T>::empty().push(q[0]));
    }
    assert(q.to_multiset() =~= q.drop_first().to_multiset().insert(q[0]));
}

proof fn lemma_last_held<T>(q: Seq<T>)
    requires
        q.len() > 0,
    ensures
        q.to_multiset().count(q.last()) >= 1,
{
    broadcast use vstd::seq_lib::group_to_multiset_ensures;
    assert(q.contains(q.last())) by {
        assert(q[q.len() - 1] == q.last());
    }
}

proof fn lemma_poll_conserves<T>(
    q: Seq<T>,
    p: Option<T>,
    mark: int,
    q2: Seq<T>,
    p2: Option<T>,
    step: PollStep<T>,
    delay_expired: bool,
    disconnected: bool,
    speed: bool,
)
    requires
        mark >= 0,
        if p is Some && delay_expired {
            step == PollStep::Ready(p->0) && p2 is None && q2 == q
        } else if disconnected && p is Some {
            step == PollStep::Ready(p->0) && p2 is None && q2 == q
        } else if q.len() == 0 {
            &&& (if disconnected {
                step is End
            } else if p is None {
                step is Pending
            } else {
                step is Again
            })
            &&& p2 == p
            &&& q2 == q
        } else {
            let coalesce = q.len() > mark;
            let e = if coalesce { q.last() } else { q[0] };
            &&& q2 == (if coalesce { Seq::empty() } else { q.drop_first() })
            &&& if speed {
                step == PollStep::Ready(e) && p2 == p
            } else {
                step is Again && p2 == Some(e)
            }
        },
    ensures
        emitted(step).add(held_events(q2, p2)).subset_of(held_events(q, p)),
        step is End ==> held_events(q, p).len() == 0,
        disconnected && !(step is End) ==> held_measure(q2, p2) < held_measure(q, p),
{
    broadcast use vstd::seq_lib::group_to_multiset_ensures;
    broadcast use vstd::multiset::group_multiset_axioms;
    if p is Some && (delay_expired || disconnected) {
        assert(emitted(step).add(held_events(q2, p2)) =~= held_events(q, p));
    } else if q.len() == 0 {
        assert(emitted(step).add(held_events(q2, p2)) =~= held_events(q, p));
        assert(q.to_multiset().len() == 0);
    } else {
        let coalesce = q.len() > mark;
        if coalesce {
            lemma_last_held(q);
            let e = q.last();
            assert(q2.to_multiset() =~= Multiset::<T>::empty());
            assert forall|v: T| #[trigger] emitted(step).add(held_events(q2, p2)).count(v) <= held_events(q, p).count(v) by {
                if v == e {
                } else {
                }
            }
        } else {
            lemma_drop_first_events(q);
            let e = q[0];
            assert forall|v: T| #[trigger] emitted(step).add(held_events(q2, p2)).count(v) <= held_events(q, p).count(v) by {
                if v == e {
                } else {
                }
            }
        }
    }
}

/// The events a run of poll steps emits.
pub open spec fn total_emitted<T>(steps: Seq<PollStep<T>>) -> Multiset<T>
    decreases steps.len(),
{
    if steps.len() == 0 {
        Multiset::empty()
    } else {
        emitted(steps[0]).add(total_emitted(steps.drop_first()))
    }
}

/// Bounded buffering: a stream's queue never holds more than its capacity.
pub proof fn law_queue_within_capacity<T>(s: DebouncedProgressStream<T>)
    requires
        s.wf(),
    ensures
        s.queued().len() <= s.capacity(),
{
}

/// A run of poll steps, with `helds[i]` the events held before step `i` (each
/// step relating them as `poll_step` states), emits only events that were held at
/// the start, each at most as often as it was held: no event is duplicated or
/// invented, and at most as many events are emitted as were held.
pub proof fn law_run_emits_held_events_at_most_once<T>(helds: Seq<Multiset<T>>, steps: Seq<PollStep<T>>)
    requires
        helds.len() == steps.len() + 1,
        forall|i: int|
            0 <= i < steps.len() ==> emitted(#[trigger] steps[i]).add(helds[i + 1]).subset_of(helds[i]),
    ensures
        total_emitted(steps).add(helds.last()).subset_of(helds[0]),
        total_emitted(steps).len() <= helds[0].len(),
    decreases steps.len(),
{
    broadcast use vstd::multiset::group_multiset_axioms;
    if steps.len() > 0 {
        let rest = steps.drop_first();
        let hr = helds.drop_first();
        assert forall|i: int| 0 <= i < rest.len() implies emitted(#[trigger] rest[i]).add(hr[i + 1]).subset_of(hr[i]) by {
            assert(rest[i] == steps[i + 1]);
            assert(emitted(steps[i + 1]).add(helds[i + 2]).subset_of(helds[i + 1]));
        }
        law_run_emits_held_events_at_most_once(hr, rest);
        assert(hr.last() == helds.last());
        assert(emitted(steps[0]).add(helds[1]).subset_of(helds[0]));
        assert forall|v: T| #[trigger] total_emitted(steps).add(helds.last()).count(v) <= helds[0].count(v) by {
            assert(total_emitted(rest).add(hr.last()).count(v) <= hr[0].count(v));
            assert(emitted(steps[0]).add(helds[1]).count(v) <= helds[0].count(v));
        }
    } else {
        assert(total_emitted(steps) =~= Multiset::<T>::empty());
    }
    lemma_subset_len(total_emitted(steps), helds.last(), helds[0]);
}

proof fn lemma_subset_len<T>(a: Multiset<T>, b: Multiset<T>, c: Multiset<T>)
    requires
        a.add(b).subset_of(c),
    ensures
        a.len() <= c.len(),
{
    broadcast use vstd::multiset::group_multiset_axioms;
    let ab = a.add(b);
    assert(c.sub(ab).add(ab) =~= c);
    assert(c.len() == c.sub(ab).len() + ab.len());
}

/// A run that starts with something held and ends with nothing held emits at
/// least one event, when every step that emits nothing leaves something held if
/// something was held (as `poll_step` states).
pub proof fn law_emptying_run_emits<T>(measures: Seq<nat>, steps: Seq<PollStep<T>>)
    requires
        measures.len() == steps.len() + 1,
        measures[0] > 0,
        measures.last() == 0,
        forall|i: int|
            0 <= i < steps.len() && !(#[trigger] steps[i] is Ready) && measures[i] > 0 ==> measures[i + 1] > 0,
    ensures
        total_emitted(steps).len() >= 1,
    decreases steps.len(),
{
    broadcast use vstd::multiset::group_multiset_axioms;
    if steps.len() == 0 {
        assert(measures.last() == measures[0]);
    } else if steps[0] is Ready {
        assert(emitted(steps[0]).len() == 1);
        assert(total_emitted(steps) == emitted(steps[0]).add(total_emitted(steps.drop_first())));
    } else {
        let rest = steps.drop_first();
        let mr = measures.drop_first();
        assert(measures[1] > 0);
        assert forall|i: int| 0 <= i < rest.len() && !(#[trigger] rest[i] is Ready) && mr[i] > 0 implies mr[i + 1] > 0 by {
            assert(rest[i] == steps[i + 1]);
        }
        assert(mr.last() == measures.last());
        law_emptying_run_emits(mr, rest);
        assert(total_emitted(steps) == emitted(steps[0]).add(total_emitted(rest)));
    }
}

/// A disconnected stream ends: when every step of a run decreases the hold
/// measure (as `poll_step` states of steps that do not end the stream), the run
/// is no longer than the initial measure.
pub proof fn law_disconnected_run_ends(measures: Seq<nat>, n: nat)
    requires
        measures.len() == n + 1,
        forall|i: int| 0 <= i < n ==> #[trigger] measures[i + 1] < measures[i],
    ensures
        n <= measures[0],
    decreases n,
{
    if n > 0 {
        let rest = measures.drop_first();
        assert forall|i: int| 0 <= i < n - 1 implies #[trigger] rest[i + 1] < rest[i] by {
            assert(rest[i + 1] == measures[i + 2]);
            assert(measures[i + 2] < measures[i + 1]);
        }
        law_disconnected_run_ends(rest, (n - 1) as nat);
        assert(measures[1] < measures[0]);
    }
}

/// An event at `now_ms` goes through the speed lane: it is the first, or comes
/// more than the delay after the previous one.
pub open spec fn speed_lane(last_event: Option<u64>, now_ms: u64, delay_ms: u64) -> bool {
    match last_event {
        Some(t) => crate::orchestration::elapsed_ms(now_ms, t) > delay_ms,
        None => true,
    }
}

/// `x + y`, saturating at `u64::MAX`.
pub open spec fn saturating_add(x: u64, y: nat) -> u64 {
    if x + y > u64::MAX {
        u64::MAX
    } else {
        (x + y) as u64
    }
}

/// `x + 1`, saturating at `u64::MAX`.
pub open spec fn saturating_inc(x: u64) -> u64 {
    if x == u64::MAX {
        x
    } else {
        (x + 1) as u64
    }
}

fn inc_saturating(x: u64) -> (r: u64)
    ensures
        r == saturating_inc(x),
{
    x.saturating_add(1)
}

fn add_saturating(x: u64, y: u64) -> (r: u64)
    ensures
        r == saturating_add(x, y as nat),
{
    x.saturating_add(y)
}

/// A debounced stream with the given delay and queue capacity.
pub fn debounced_progress_stream<T>(delay_ms: u64, queue_capacity: usize) -> (s: DebouncedProgressStream<T>)
    requires
        queue_capacity * 3 <= usize::MAX,
    ensures
        s.wf(),
        s.queued().len() == 0,
        s.pending() is None,
        s.last_event() is None,
        s.capacity() == queue_capacity,
        s.delay() == delay_ms,
        s.counts() == (0u64, 0u64, 0u64),
{
    DebouncedProgressStream::new(delay_ms, queue_capacity)
}

} // verus!
