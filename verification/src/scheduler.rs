//! Admission and ordering for the actions one mount scope accepts.
//!
//! Regions hand their actions here as they arrive, each with the [`Pace`] its
//! producer declared. A discrete action (a click) queues behind the ones
//! before it, and a full queue refuses it. A continuous action (a pointer
//! move) replaces the older state of its own stream and takes the newer
//! arrival position, so it still lands on the correct side of the clicks
//! around it; streams use no queue capacity at all.
//!
//! The model is one sequence of pending entries in arrival order: the
//! sequence number each was accepted with, the stream it belongs to (none
//! for a discrete action), and the action itself.

use vstd::prelude::*;
use crate::strings::str_eq;

verus! {

/// Arrival order of an accepted action within a scope. Monotonic, and only
/// spent on actions that were actually accepted.
pub type SeqNum = u64;

/// How deep the discrete queue is by default.
pub const QUEUE_CAPACITY: usize = 1024;

/// How many actions one batch takes by default.
pub const BATCH: usize = 64;

/// How an action's producer wants it treated.
#[derive(Clone, Copy, Debug, PartialEq, Eq)]
pub enum Pace {
    /// Every one counts and they are delivered in order.
    Discrete,
    /// Only the latest state of the named stream matters.
    Continuous(&'static str),
}

/// What accepting an action turned into.
#[derive(Clone, Copy, Debug, PartialEq, Eq)]
pub enum Admission {
    Accepted(SeqNum),
    /// The queue is full. The action was not accepted, has no sequence
    /// number and must be reported to the user as not executed.
    Backpressure,
}

/// One pending action: its sequence number, its stream (none for a discrete
/// action) and the action.
pub type Entry<A> = (u64, Option<Seq<char>>, A);

/// The discrete entries of `q`, in order, with their stream tag dropped.
pub open spec fn clicks<A>(q: Seq<Entry<A>>) -> Seq<(u64, A)>
    decreases q.len(),
{
    if q.len() == 0 {
        Seq::empty()
    } else if q.last().1 is None {
        clicks(q.drop_last()).push((q.last().0, q.last().2))
    } else {
        clicks(q.drop_last())
    }
}

/// `q` without the entry of stream `name`.
pub open spec fn without_stream<A>(q: Seq<Entry<A>>, name: Seq<char>) -> Seq<Entry<A>>
    decreases q.len(),
{
    if q.len() == 0 {
        Seq::empty()
    } else if q.last().1 == Some(name) {
        without_stream(q.drop_last(), name)
    } else {
        without_stream(q.drop_last(), name).push(q.last())
    }
}

/// Sequence numbers rise strictly along `q`.
pub open spec fn arrival_ordered<A>(q: Seq<Entry<A>>) -> bool {
    forall|i: int, j: int| 0 <= i < j < q.len() ==> q[i].0 < q[j].0
}

/// At most one entry per stream.
pub open spec fn one_per_stream<A>(q: Seq<Entry<A>>) -> bool {
    forall|i: int, j: int|
        0 <= i < j < q.len() && (#[trigger] q[i]).1 is Some ==> q[i].1 != (#[trigger] q[j]).1
}

proof fn lemma_clicks_concat<A>(a: Seq<Entry<A>>, b: Seq<Entry<A>>)
    ensures
        clicks(a + b) == clicks(a) + clicks(b),
    decreases b.len(),
{
    if b.len() == 0 {
        assert(a + b =~= a);
        assert(clicks(a) + clicks(b) =~= clicks(a));
    } else {
        lemma_clicks_concat(a, b.drop_last());
        assert((a + b).drop_last() =~= a + b.drop_last());
        assert((a + b).last() == b.last());
        if b.last().1 is None {
            assert(clicks(a) + clicks(b.drop_last()).push((b.last().0, b.last().2)) =~= (clicks(a)
                + clicks(b.drop_last())).push((b.last().0, b.last().2)));
        }
    }
}

proof fn lemma_without_concat<A>(a: Seq<Entry<A>>, b: Seq<Entry<A>>, name: Seq<char>)
    ensures
        without_stream(a + b, name) == without_stream(a, name) + without_stream(b, name),
    decreases b.len(),
{
    if b.len() == 0 {
        assert(a + b =~= a);
        assert(without_stream(a, name) + without_stream(b, name) =~= without_stream(a, name));
    } else {
        lemma_without_concat(a, b.drop_last(), name);
        assert((a + b).drop_last() =~= a + b.drop_last());
        assert((a + b).last() == b.last());
        if b.last().1 != Some(name) {
            assert(without_stream(a, name) + without_stream(b.drop_last(), name).push(b.last())
                =~= (without_stream(a, name) + without_stream(b.drop_last(), name)).push(
                b.last(),
            ));
        }
    }
}

proof fn lemma_clicks_single<A>(e: Entry<A>)
    ensures
        clicks(seq![e]) == (if e.1 is None {
            seq![(e.0, e.2)]
        } else {
            Seq::<(u64, A)>::empty()
        }),
{
    assert(seq![e].drop_last() =~= Seq::<Entry<A>>::empty());
    assert(seq![e].last() == e);
    assert(clicks(Seq::<Entry<A>>::empty()) =~= Seq::<(u64, A)>::empty());
    assert(Seq::<(u64, A)>::empty().push((e.0, e.2)) =~= seq![(e.0, e.2)]);
}

proof fn lemma_without_single<A>(e: Entry<A>, name: Seq<char>)
    ensures
        without_stream(seq![e], name) == (if e.1 == Some(name) {
            Seq::<Entry<A>>::empty()
        } else {
            seq![e]
        }),
{
    assert(seq![e].drop_last() =~= Seq::<Entry<A>>::empty());
    assert(seq![e].last() == e);
    assert(without_stream(Seq::<Entry<A>>::empty(), name) =~= Seq::<Entry<A>>::empty());
    assert(Seq::<Entry<A>>::empty().push(e) =~= seq![e]);
}

/// Every discrete entry listed by `clicks` comes from some position of `q`.
proof fn lemma_clicks_from<A>(q: Seq<Entry<A>>, i: int)
    requires
        0 <= i < clicks(q).len(),
    ensures
        exists|j: int|
            0 <= j < q.len() && q[j].1 is None && (q[j].0, q[j].2) == #[trigger] clicks(q)[i],
    decreases q.len(),
{
    let rest = q.drop_last();
    if q.last().1 is None && i == clicks(rest).len() {
        assert(q[q.len() - 1].1 is None && (q[q.len() - 1].0, q[q.len() - 1].2) == clicks(q)[i]);
    } else {
        lemma_clicks_from(rest, i);
        let j = choose|j: int|
            0 <= j < rest.len() && rest[j].1 is None && (rest[j].0, rest[j].2) == #[trigger] clicks(
                rest,
            )[i];
        assert(q[j] == rest[j]);
    }
}

proof fn lemma_clicks_len<A>(q: Seq<Entry<A>>)
    ensures
        clicks(q).len() <= q.len(),
    decreases q.len(),
{
    if q.len() > 0 {
        lemma_clicks_len(q.drop_last());
    }
}

/// Removing a stream entry from a sequence with at most one per stream.
proof fn lemma_without_at<A>(q: Seq<Entry<A>>, j: int, name: Seq<char>)
    requires
        0 <= j < q.len(),
        q[j].1 == Some(name),
        one_per_stream(q),
    ensures
        without_stream(q, name) == q.remove(j),
{
    lemma_without_absent(q.subrange(0, j), name);
    lemma_without_absent(q.subrange(j + 1, q.len() as int), name);
    assert(q =~= q.subrange(0, j) + seq![q[j]] + q.subrange(j + 1, q.len() as int));
    lemma_without_concat(q.subrange(0, j) + seq![q[j]], q.subrange(j + 1, q.len() as int), name);
    lemma_without_concat(q.subrange(0, j), seq![q[j]], name);
    lemma_without_single(q[j], name);
    assert(q.remove(j) =~= q.subrange(0, j) + q.subrange(j + 1, q.len() as int));
    assert(without_stream(q.subrange(0, j), name) + Seq::<Entry<A>>::empty() =~= q.subrange(0, j));
}

proof fn lemma_without_absent<A>(q: Seq<Entry<A>>, name: Seq<char>)
    requires
        forall|k: int| 0 <= k < q.len() ==> q[k].1 != Some(name),
    ensures
        without_stream(q, name) == q,
    decreases q.len(),
{
    if q.len() > 0 {
        lemma_without_absent(q.drop_last(), name);
        assert(q.drop_last().push(q.last()) =~= q);
    }
}

/// The stream entries of `q` are removed without touching the discrete ones.
proof fn lemma_clicks_remove_stream<A>(q: Seq<Entry<A>>, j: int)
    requires
        0 <= j < q.len(),
        q[j].1 is Some,
    ensures
        clicks(q.remove(j)) == clicks(q),
{
    assert(q =~= q.subrange(0, j) + seq![q[j]] + q.subrange(j + 1, q.len() as int));
    assert(q.remove(j) =~= q.subrange(0, j) + q.subrange(j + 1, q.len() as int));
    lemma_clicks_concat(q.subrange(0, j) + seq![q[j]], q.subrange(j + 1, q.len() as int));
    lemma_clicks_concat(q.subrange(0, j), seq![q[j]]);
    lemma_clicks_concat(q.subrange(0, j), q.subrange(j + 1, q.len() as int));
    lemma_clicks_single(q[j]);
    assert(clicks(q.subrange(0, j)) + Seq::<(u64, A)>::empty() =~= clicks(q.subrange(0, j)));
}

/// Taking the first entry off.
proof fn lemma_clicks_drop_first<A>(q: Seq<Entry<A>>)
    requires
        q.len() > 0,
    ensures
        q[0].1 is None ==> clicks(q).len() > 0 && clicks(q)[0] == (q[0].0, q[0].2) && clicks(
            q.drop_first(),
        ) == clicks(q).drop_first(),
        q[0].1 is Some ==> clicks(q.drop_first()) == clicks(q),
{
    assert(q =~= seq![q[0]] + q.drop_first());
    lemma_clicks_concat(seq![q[0]], q.drop_first());
    lemma_clicks_single(q[0]);
    if q[0].1 is None {
        assert((seq![(q[0].0, q[0].2)] + clicks(q.drop_first())).drop_first() =~= clicks(
            q.drop_first(),
        ));
    } else {
        assert(Seq::<(u64, A)>::empty() + clicks(q.drop_first()) =~= clicks(q.drop_first()));
    }
}

/// Removing one stream's entry leaves the discrete entries alone.
proof fn lemma_clicks_without<A>(q: Seq<Entry<A>>, name: Seq<char>)
    ensures
        clicks(without_stream(q, name)) == clicks(q),
    decreases q.len(),
{
    if q.len() > 0 {
        lemma_clicks_without(q.drop_last(), name);
        let w = without_stream(q.drop_last(), name);
        if q.last().1 != Some(name) {
            assert(w.push(q.last()).drop_last() =~= w);
        }
    }
}

/// Streams use no queue capacity: accepting a continuous action leaves the
/// waiting clicks exactly as they were, whatever stream it belongs to.
pub proof fn law_streams_use_no_queue_capacity<A>(
    q: Seq<Entry<A>>,
    name: Seq<char>,
    seq: u64,
    action: A,
)
    ensures
        clicks(without_stream(q, name).push((seq, Some(name), action))) == clicks(q),
{
    lemma_clicks_without(q, name);
    let w = without_stream(q, name);
    assert(w.push((seq, Some(name), action)).drop_last() =~= w);
}

/// How many entries of `q` are the latest state of a stream.
pub open spec fn streams_waiting<A>(q: Seq<Entry<A>>) -> nat
    decreases q.len(),
{
    if q.len() == 0 {
        0
    } else if q.last().1 is Some {
        streams_waiting(q.drop_last()) + 1
    } else {
        streams_waiting(q.drop_last())
    }
}

proof fn lemma_pending_is_clicks_and_streams<A>(q: Seq<Entry<A>>)
    ensures
        q.len() == clicks(q).len() + streams_waiting(q),
    decreases q.len(),
{
    if q.len() > 0 {
        lemma_pending_is_clicks_and_streams(q.drop_last());
    }
}

/// What offering `action` at `pace` does to a scheduler and what it answers.
pub open spec fn accept_post<A>(a: Scheduler<A>, b: Scheduler<A>, pace: Pace, action: A, r: Admission) -> bool {
    &&& b.capacity() == a.capacity()
    &&& b.batch_size() == a.batch_size()
    &&& match pace {
        Pace::Discrete => if a.waiting_clicks() < a.capacity() {
            &&& r == Admission::Accepted(a.next())
            &&& b.next() == a.next() + 1
            &&& b.queue() == a.queue().push((a.next(), None, action))
        } else {
            &&& r == Admission::Backpressure
            &&& b.next() == a.next()
            &&& b.queue() == a.queue()
        },
        Pace::Continuous(name) => {
            &&& r == Admission::Accepted(a.next())
            &&& b.next() == a.next() + 1
            &&& b.queue() == without_stream(a.queue(), name@).push((a.next(), Some(name@), action))
        },
    }
}

/// The admission rule: a discrete action is accepted exactly while fewer
/// than the capacity are waiting and then takes one place, a continuous one
/// is always accepted and takes none, every accepted action gets the next
/// sequence number, and a refused one takes no number and changes nothing.
pub proof fn law_admission<A>(a: Scheduler<A>, b: Scheduler<A>, pace: Pace, action: A, r: Admission)
    requires
        accept_post(a, b, pace, action, r),
    ensures
        (r is Accepted) == (pace is Continuous || a.waiting_clicks() < a.capacity()),
        r is Accepted ==> r == Admission::Accepted(a.next()) && b.next() == a.next() + 1,
        r is Backpressure ==> b.next() == a.next() && b.queue() == a.queue(),
        b.waiting_clicks() == if pace is Discrete && r is Accepted {
            a.waiting_clicks() + 1
        } else {
            a.waiting_clicks()
        },
{
    match pace {
        Pace::Discrete => {
            if r is Accepted {
                assert(b.queue().drop_last() =~= a.queue());
            }
        },
        Pace::Continuous(name) => {
            law_streams_use_no_queue_capacity(a.queue(), name@, a.next(), action);
        },
    }
}

/// The actions of a scope, ordered and admitted.
pub struct Scheduler<A> {
    discrete: std::collections::VecDeque<(u64, A)>,
    /// One slot per named stream, outside the queue on purpose: a stream of
    /// pointer moves must not be able to fill it and push a click into
    /// backpressure.
    continuous: Vec<(&'static str, u64, A)>,
    next_seq: u64,
    capacity: usize,
    batch: usize,
    /// Every pending entry, in arrival order.
    order: Ghost<Seq<Entry<A>>>,
}

/// A stream slot seen as an entry of the model.
pub open spec fn slot_entry<A>(slot: (&'static str, u64, A)) -> Entry<A> {
    (slot.1, Some(slot.0@), slot.2)
}

impl<A> Scheduler<A> {
    /// Everything pending, in arrival order.
    pub closed spec fn queue(&self) -> Seq<Entry<A>> {
        self.order@
    }

    /// The sequence number the next accepted action gets.
    pub closed spec fn next(&self) -> u64 {
        self.next_seq
    }

    /// How many discrete actions the queue holds before it refuses.
    pub closed spec fn capacity(&self) -> usize {
        self.capacity
    }

    /// The most actions one batch hands out.
    pub closed spec fn batch_size(&self) -> usize {
        self.batch
    }

    /// How many discrete actions are waiting.
    pub open spec fn waiting_clicks(&self) -> nat {
        clicks(self.queue()).len()
    }

    pub closed spec fn wf(&self) -> bool {
        let q = self.order@;
        let c = self.continuous@;
        &&& arrival_ordered(q)
        &&& one_per_stream(q)
        &&& forall|i: int| 0 <= i < q.len() ==> (#[trigger] q[i]).0 < self.next_seq
        &&& self.discrete@ == clicks(q)
        &&& self.discrete@.len() <= self.capacity
        &&& self.discrete@.len() + c.len() == q.len()
        &&& q.len() <= usize::MAX
        &&& forall|a: int, b: int| 0 <= a < b < c.len() ==> (#[trigger] c[a]).0@ != (#[trigger] c[b]).0@
        &&& forall|i: int| 0 <= i < c.len() ==> q.contains(slot_entry(#[trigger] c[i]))
        &&& forall|j: int|
            0 <= j < q.len() && (#[trigger] q[j]).1 is Some ==> exists|i: int|
                0 <= i < c.len() && slot_entry(#[trigger] c[i]) == q[j]
    }

    /// What every scheduler keeps: pending entries are in arrival order,
    /// each stream has at most one pending state, every sequence number
    /// handed out is below the next one, the discrete queue never holds
    /// more than its capacity, and what is pending is the discrete actions
    /// and one state per stream.
    pub proof fn law_pending_is_ordered(&self)
        requires
            self.wf(),
        ensures
            arrival_ordered(self.queue()),
            one_per_stream(self.queue()),
            forall|i: int| 0 <= i < self.queue().len() ==> (#[trigger] self.queue()[i]).0 < self.next(),
            self.waiting_clicks() <= self.capacity(),
            self.queue().len() == self.waiting_clicks() + streams_waiting(self.queue()),
    {
        lemma_pending_is_clicks_and_streams(self.queue());
    }

    pub fn new() -> (s: Self)
        ensures
            s.wf(),
            s.queue() == Seq::<Entry<A>>::empty(),
            s.next() == 0,
            s.capacity() == QUEUE_CAPACITY,
            s.batch_size() == BATCH,
    {
        Self::with_limits(QUEUE_CAPACITY, BATCH)
    }

    pub fn with_limits(capacity: usize, batch: usize) -> (s: Self)
        ensures
            s.wf(),
            s.queue() == Seq::<Entry<A>>::empty(),
            s.next() == 0,
            s.capacity() == capacity,
            s.batch_size() == batch,
    {
        let s = Scheduler {
            discrete: std::collections::VecDeque::new(),
            continuous: Vec::new(),
            next_seq: 0,
            capacity,
            batch,
            order: Ghost(Seq::empty()),
        };
        assert(clicks(Seq::<Entry<A>>::empty()) =~= Seq::<(u64, A)>::empty());
        s
    }

    pub fn is_empty(&self) -> (r: bool)
        requires
            self.wf(),
        ensures
            r == (self.queue().len() == 0),
    {
        self.discrete.len() == 0 && self.continuous.len() == 0
    }

    /// The sequence number the next accepted action will get.
    pub fn next_seq(&self) -> (r: u64)
        ensures
            r == self.next(),
    {
        self.next_seq
    }

    /// How many actions are waiting: every discrete one, and one per stream
    /// that has a state waiting.
    pub fn pending(&self) -> (r: usize)
        requires
            self.wf(),
        ensures
            r == self.queue().len(),
            r == self.waiting_clicks() + streams_waiting(self.queue()),
    {
        proof {
            lemma_pending_is_clicks_and_streams(self.queue());
            lemma_clicks_len(self.order@);
        }
        self.discrete.len() + self.continuous.len()
    }

    /// The position of `stream`'s slot, if it has one.
    fn find_stream(&self, stream: &'static str) -> (r: Option<usize>)
        ensures
            match r {
                Some(i) => i < self.continuous@.len() && self.continuous@[i as int].0@ == stream@,
                None => forall|k: int|
                    0 <= k < self.continuous@.len() ==> (#[trigger] self.continuous@[k]).0@ != stream@,
            },
    {
        let mut i: usize = 0;
        while i < self.continuous.len()
            invariant
                i <= self.continuous@.len(),
                forall|k: int| 0 <= k < i ==> (#[trigger] self.continuous@[k]).0@ != stream@,
            decreases self.continuous@.len() - i,
        {
            if str_eq(self.continuous[i].0, stream) {
                return Some(i);
            }
            i = i + 1;
        }
        None
    }


    /// The stream slot holding the earliest pending state, if any.
    fn earliest_stream(&self) -> (r: Option<usize>)
        ensures
            match r {
                Some(i) => i < self.continuous@.len() && forall|k: int|
                    0 <= k < self.continuous@.len() ==> self.continuous@[i as int].1 <= (
                    #[trigger] self.continuous@[k]).1,
                None => self.continuous@.len() == 0,
            },
    {
        if self.continuous.len() == 0 {
            return None;
        }
        let mut best: usize = 0;
        let mut i: usize = 1;
        while i < self.continuous.len()
            invariant
                1 <= i <= self.continuous@.len(),
                best < i,
                forall|k: int|
                    0 <= k < i ==> self.continuous@[best as int].1 <= (
                    #[trigger] self.continuous@[k]).1,
            decreases self.continuous@.len() - i,
        {
            if self.continuous[i].1 < self.continuous[best].1 {
                best = i;
            }
            i = i + 1;
        }
        Some(best)
    }

    /// Takes the earliest pending action, if there is one.
    fn take_first(&mut self) -> (r: Option<A>)
        requires
            old(self).wf(),
        ensures
            final(self).wf(),
            final(self).next() == old(self).next(),
            final(self).capacity() == old(self).capacity(),
            final(self).batch_size() == old(self).batch_size(),
            old(self).queue().len() == 0 ==> r is None && final(self).queue() == old(self).queue(),
            old(self).queue().len() > 0 ==> r == Some(old(self).queue()[0].2)
                && final(self).queue() == old(self).queue().drop_first(),
    {
        let earliest = self.earliest_stream();
        let take_continuous = match earliest {
            Some(i) => if self.discrete.len() > 0 {
                self.continuous[i].1 < self.discrete[0].0
            } else {
                true
            },
            None => false,
        };
        if take_continuous {
            let i = earliest.unwrap();
            proof {
                self.lemma_take_stream(i as int);
            }
            let ghost q = self.order@;
            self.order = Ghost(q.drop_first());
            let slot = self.continuous.remove(i);
            Some(slot.2)
        } else {
            proof {
                self.lemma_take_click(earliest);
            }
            let ghost q = self.order@;
            let front = self.discrete.pop_front();
            match front {
                Some(click) => {
                    self.order = Ghost(q.drop_first());
                    Some(click.1)
                },
                None => None,
            }
        }
    }

    /// When the earliest stream state is older than every click, it is the
    /// first pending entry, and taking it keeps the model.
    proof fn lemma_take_stream(&self, i: int)
        requires
            self.wf(),
            0 <= i < self.continuous@.len(),
            forall|k: int|
                0 <= k < self.continuous@.len() ==> self.continuous@[i].1 <= (
                #[trigger] self.continuous@[k]).1,
            self.discrete@.len() > 0 ==> self.continuous@[i].1 < self.discrete@[0].0,
        ensures
            self.order@.len() > 0,
            self.order@[0] == slot_entry(self.continuous@[i]),
            ({
                let q = self.order@.drop_first();
                let c = self.continuous@.remove(i);
                &&& arrival_ordered(q)
                &&& one_per_stream(q)
                &&& clicks(q) == self.discrete@
                &&& forall|k: int| 0 <= k < c.len() ==> q.contains(slot_entry(#[trigger] c[k]))
                &&& forall|m: int|
                    0 <= m < q.len() && (#[trigger] q[m]).1 is Some ==> exists|k: int|
                        0 <= k < c.len() && slot_entry(#[trigger] c[k]) == q[m]
                &&& forall|a: int, b: int|
                    0 <= a < b < c.len() ==> (#[trigger] c[a]).0@ != (#[trigger] c[b]).0@
            }),
    {
        let q = self.order@;
        let c0 = self.continuous@;
        let d = self.discrete@;
        assert(q.contains(slot_entry(c0[i])));
        let m = choose|m: int| 0 <= m < q.len() && q[m] == slot_entry(c0[i]);
        if m > 0 {
            assert(q[0].0 < q[m].0);
            if q[0].1 is Some {
                let k = choose|k: int| 0 <= k < c0.len() && slot_entry(#[trigger] c0[k]) == q[0];
                assert(c0[i].1 <= c0[k].1);
            } else {
                lemma_clicks_drop_first(q);
            }
        }
        assert(m == 0);
        lemma_clicks_drop_first(q);
        let q2 = q.drop_first();
        let c = c0.remove(i);
        assert forall|k: int| 0 <= k < c.len() implies q2.contains(slot_entry(#[trigger] c[k])) by {
            let k0 = if k < i {
                k
            } else {
                k + 1
            };
            assert(c[k] == c0[k0]);
            assert(q.contains(slot_entry(c0[k0])));
            let m2 = choose|m2: int| 0 <= m2 < q.len() && q[m2] == slot_entry(c0[k0]);
            if m2 == 0 {
                if k0 < i {
                    assert(c0[k0].0@ != c0[i].0@);
                } else {
                    assert(c0[i].0@ != c0[k0].0@);
                }
            }
            assert(q2[m2 - 1] == q[m2]);
        }
        assert forall|m2: int| 0 <= m2 < q2.len() && (#[trigger] q2[m2]).1 is Some implies exists|k: int|
            0 <= k < c.len() && slot_entry(#[trigger] c[k]) == q2[m2] by {
            assert(q2[m2] == q[m2 + 1]);
            let k0 = choose|k0: int| 0 <= k0 < c0.len() && slot_entry(#[trigger] c0[k0]) == q[m2 + 1];
            if k0 == i {
                assert(q[0].0 < q[m2 + 1].0);
            }
            let k = if k0 < i {
                k0
            } else {
                k0 - 1
            };
            assert(c[k] == c0[k0]);
        }
        assert forall|a: int, b: int| 0 <= a < b < c.len() implies (#[trigger] c[a]).0@ != (
        #[trigger] c[b]).0@ by {
            let a0 = if a < i {
                a
            } else {
                a + 1
            };
            let b0 = if b < i {
                b
            } else {
                b + 1
            };
            assert(c[a] == c0[a0] && c[b] == c0[b0]);
            assert(c0[a0].0@ != c0[b0].0@);
        }
        assert forall|a: int, b: int|
            0 <= a < b < q2.len() && (#[trigger] q2[a]).1 is Some implies q2[a].1 != (
            #[trigger] q2[b]).1 by {
            assert(q2[a] == q[a + 1] && q2[b] == q[b + 1]);
        }
    }

    /// When no stream state is older than the first click, the first click is
    /// the first pending entry, and taking it keeps the model.
    proof fn lemma_take_click(&self, earliest: Option<usize>)
        requires
            self.wf(),
            match earliest {
                Some(i) => i < self.continuous@.len() && (forall|k: int|
                    0 <= k < self.continuous@.len() ==> self.continuous@[i as int].1 <= (
                    #[trigger] self.continuous@[k]).1) && self.discrete@.len() > 0
                    && self.discrete@[0].0 <= self.continuous@[i as int].1,
                None => self.continuous@.len() == 0,
            },
        ensures
            self.order@.len() == 0 ==> self.discrete@.len() == 0,
            self.order@.len() > 0 ==> {
                let q = self.order@.drop_first();
                let c = self.continuous@;
                &&& self.discrete@.len() > 0
                &&& self.order@[0] == (self.discrete@[0].0, None::<Seq<char>>, self.discrete@[0].1)
                &&& arrival_ordered(q)
                &&& one_per_stream(q)
                &&& clicks(q) == self.discrete@.subrange(1, self.discrete@.len() as int)
                &&& forall|k: int| 0 <= k < c.len() ==> q.contains(slot_entry(#[trigger] c[k]))
                &&& forall|m: int|
                    0 <= m < q.len() && (#[trigger] q[m]).1 is Some ==> exists|k: int|
                        0 <= k < c.len() && slot_entry(#[trigger] c[k]) == q[m]
            },
    {
        let q = self.order@;
        let c = self.continuous@;
        let d = self.discrete@;
        lemma_clicks_len(q);
        if q.len() > 0 {
            if q[0].1 is Some {
                let k = choose|k: int| 0 <= k < c.len() && slot_entry(#[trigger] c[k]) == q[0];
                let i = earliest.unwrap() as int;
                assert(q.contains(slot_entry(c[i])));
                let m = choose|m: int| 0 <= m < q.len() && q[m] == slot_entry(c[i]);
                assert(c[i].1 <= c[k].1);
                assert(m == 0);
                lemma_clicks_from(q, 0);
                let j = choose|j: int|
                    0 <= j < q.len() && q[j].1 is None && (q[j].0, q[j].2) == #[trigger] clicks(q)[0];
                assert(q[0].0 < q[j].0);
            }
            lemma_clicks_drop_first(q);
            let q2 = q.drop_first();
            assert(clicks(q).drop_first() =~= d.subrange(1, d.len() as int));
            assert forall|k: int| 0 <= k < c.len() implies q2.contains(slot_entry(#[trigger] c[k])) by {
                assert(q.contains(slot_entry(c[k])));
                let m2 = choose|m2: int| 0 <= m2 < q.len() && q[m2] == slot_entry(c[k]);
                assert(m2 != 0);
                assert(q2[m2 - 1] == q[m2]);
            }
            assert forall|m2: int| 0 <= m2 < q2.len() && (#[trigger] q2[m2]).1 is Some implies exists|k: int|
                0 <= k < c.len() && slot_entry(#[trigger] c[k]) == q2[m2] by {
                assert(q2[m2] == q[m2 + 1]);
            }
            assert forall|a: int, b: int|
                0 <= a < b < q2.len() && (#[trigger] q2[a]).1 is Some implies q2[a].1 != (
                #[trigger] q2[b]).1 by {
                assert(q2[a] == q[a + 1] && q2[b] == q[b + 1]);
            }
        }
    }

    /// Takes the next actions in arrival order, at most one batch of them.
    /// Anything still pending stays queued in order.
    pub fn take_batch(&mut self) -> (r: Vec<A>)
        requires
            old(self).wf(),
        ensures
            final(self).wf(),
            final(self).next() == old(self).next(),
            final(self).capacity() == old(self).capacity(),
            final(self).batch_size() == old(self).batch_size(),
            ({
                let k = if old(self).batch_size() < old(self).queue().len() {
                    old(self).batch_size() as int
                } else {
                    old(self).queue().len() as int
                };
                &&& r@ == old(self).queue().take(k).map_values(|e: Entry<A>| e.2)
                &&& final(self).queue() == old(self).queue().skip(k)
            }),
    {
        let ghost start = self.order@;
        let mut batch: Vec<A> = Vec::new();
        assert(start.skip(0) =~= start);
        assert(start.take(0).map_values(|e: Entry<A>| e.2) =~= batch@);
        while batch.len() < self.batch && !self.is_empty()
            invariant
                self.wf(),
                self.next() == old(self).next(),
                self.capacity() == old(self).capacity(),
                self.batch_size() == old(self).batch_size(),
                start == old(self).queue(),
                batch@.len() <= self.batch,
                batch@.len() <= start.len(),
                self.order@ == start.skip(batch@.len() as int),
                batch@ == start.take(batch@.len() as int).map_values(|e: Entry<A>| e.2),
            decreases self.order@.len(),
        {
            let ghost before = self.order@;
            let next = self.take_first();
            match next {
                Some(action) => {
                    proof {
                        assert(start.skip(batch@.len() as int)[0] == start[batch@.len() as int]);
                        assert(before.drop_first() =~= start.skip(batch@.len() as int + 1));
                        assert(batch@.push(action) =~= start.take(batch@.len() as int + 1).map_values(
                            |e: Entry<A>| e.2,
                        ));
                    }
                    batch.push(action);
                },
                None => {},
            }
        }
        batch
    }

    fn take_seq(&mut self) -> (seq: u64)
        requires
            old(self).next_seq < u64::MAX,
        ensures
            seq == old(self).next_seq,
            final(self).next_seq == old(self).next_seq + 1,
            final(self).discrete == old(self).discrete,
            final(self).continuous == old(self).continuous,
            final(self).capacity == old(self).capacity,
            final(self).batch == old(self).batch,
            final(self).order == old(self).order,
    {
        let seq = self.next_seq;
        self.next_seq = self.next_seq + 1;
        seq
    }

    /// Takes `action` as the newest state of `stream`.
    fn accept_stream(&mut self, stream: &'static str, action: A) -> (seq: u64)
        requires
            old(self).wf(),
            old(self).next() < u64::MAX,
            old(self).queue().len() < usize::MAX,
        ensures
            final(self).wf(),
            final(self).capacity() == old(self).capacity(),
            final(self).batch_size() == old(self).batch_size(),
            seq == old(self).next(),
            final(self).next() == old(self).next() + 1,
            final(self).queue() == without_stream(old(self).queue(), stream@).push(
                (old(self).next(), Some(stream@), action),
            ),
    {
                let seq = self.take_seq();
                let ghost q = self.order@;
                let ghost entry: Entry<A> = (seq, Some(stream@), action);
                let slot = self.find_stream(stream);
                if let Some(i) = slot {
                    let ghost old_slot = self.continuous@[i as int];
                    proof {
                        assert(q.contains(slot_entry(old_slot)));
                    }
                    let ghost j = choose|j: int| 0 <= j < q.len() && q[j] == slot_entry(old_slot);
                    proof {
                        lemma_without_at(q, j, stream@);
                        lemma_clicks_remove_stream(q, j);
                        self.lemma_accept_replace(i as int, j, (stream, seq, action));
                    }
                    self.order = Ghost(q.remove(j).push(entry));
                    self.continuous.set(i, (stream, seq, action));
                    proof {
                        assert(self.continuous@[i as int] == (stream, seq, action));
                    }
                } else {
                    proof {
                        assert forall|k: int| 0 <= k < q.len() implies q[k].1 != Some(stream@) by {
                            if q[k].1 == Some(stream@) {
                                let m = choose|m: int|
                                    0 <= m < self.continuous@.len() && slot_entry(
                                        #[trigger] self.continuous@[m],
                                    ) == q[k];
                                assert(self.continuous@[m].0@ != stream@);
                            }
                        }
                        lemma_without_absent(q, stream@);
                        self.lemma_accept_new_stream((stream, seq, action));
                    }
                    self.order = Ghost(q.push(entry));
                    self.continuous.push((stream, seq, action));
                    proof {
                        let c = self.continuous@;
                        assert(slot_entry(c[c.len() - 1]) == entry);
                    }
                }
                proof {
                    assert(self.wf());
                }
                        seq
    }

    /// Offers one action. A continuous one is always accepted and replaces
    /// its stream's older state; a discrete one is accepted while the queue
    /// has room and refused otherwise, spending no sequence number.
    pub fn accept(&mut self, pace: Pace, action: A) -> (r: Admission)
        requires
            old(self).wf(),
            old(self).next() < u64::MAX,
            old(self).queue().len() < usize::MAX,
        ensures
            final(self).wf(),
            accept_post(*old(self), *final(self), pace, action, r),
            final(self).capacity() == old(self).capacity(),
            final(self).batch_size() == old(self).batch_size(),
            match pace {
                Pace::Discrete => if old(self).waiting_clicks() < old(self).capacity() {
                    &&& r == Admission::Accepted(old(self).next())
                    &&& final(self).next() == old(self).next() + 1
                    &&& final(self).queue() == old(self).queue().push(
                        (old(self).next(), None, action),
                    )
                } else {
                    &&& r == Admission::Backpressure
                    &&& final(self).next() == old(self).next()
                    &&& final(self).queue() == old(self).queue()
                },
                Pace::Continuous(name) => {
                    &&& r == Admission::Accepted(old(self).next())
                    &&& final(self).next() == old(self).next() + 1
                    &&& final(self).queue() == without_stream(old(self).queue(), name@).push(
                        (old(self).next(), Some(name@), action),
                    )
                },
            },
    {
        match pace {
            Pace::Continuous(stream) => {
                let seq = self.accept_stream(stream, action);
                Admission::Accepted(seq)
            },
            Pace::Discrete => {
                if self.discrete.len() < self.capacity {
                    let seq = self.take_seq();
                    let ghost q = self.order@;
                    let ghost entry: Entry<A> = (seq, None, action);
                    proof {
                        self.lemma_accept_click(entry);
                    }
                    self.order = Ghost(q.push(entry));
                    self.discrete.push_back((seq, action));
                    Admission::Accepted(seq)
                } else {
                    Admission::Backpressure
                }
            },
        }
    }

    /// The model after appending a fresh discrete entry.
    proof fn lemma_accept_click(&self, entry: Entry<A>)
        requires
            entry.0 < self.next_seq,
            entry.1 is None,
            forall|i: int| 0 <= i < self.order@.len() ==> (#[trigger] self.order@[i]).0 < entry.0,
            arrival_ordered(self.order@),
            one_per_stream(self.order@),
            self.discrete@ == clicks(self.order@),
            forall|k: int|
                0 <= k < self.continuous@.len() ==> self.order@.contains(
                    slot_entry(#[trigger] self.continuous@[k]),
                ),
            forall|m: int|
                0 <= m < self.order@.len() && (#[trigger] self.order@[m]).1 is Some ==> exists|k: int|
                    0 <= k < self.continuous@.len() && slot_entry(#[trigger] self.continuous@[k])
                        == self.order@[m],
        ensures
            ({
                let p = self.order@.push(entry);
                let c = self.continuous@;
                &&& arrival_ordered(p)
                &&& one_per_stream(p)
                &&& clicks(p) == self.discrete@.push((entry.0, entry.2))
                &&& forall|k: int| 0 <= k < p.len() ==> (#[trigger] p[k]).0 < self.next_seq
                &&& forall|k: int| 0 <= k < c.len() ==> p.contains(slot_entry(#[trigger] c[k]))
                &&& forall|m: int|
                    0 <= m < p.len() && (#[trigger] p[m]).1 is Some ==> exists|k: int|
                        0 <= k < c.len() && slot_entry(#[trigger] c[k]) == p[m]
            }),
    {
        let q = self.order@;
        let p = q.push(entry);
        let c = self.continuous@;
        assert(p.drop_last() =~= q);
        assert(p.last() == entry);
        assert forall|k: int| 0 <= k < c.len() implies p.contains(slot_entry(#[trigger] c[k])) by {
            assert(q.contains(slot_entry(c[k])));
            let m = choose|m: int| 0 <= m < q.len() && q[m] == slot_entry(c[k]);
            assert(p[m] == q[m]);
        }
        assert forall|m: int| 0 <= m < p.len() && (#[trigger] p[m]).1 is Some implies exists|k: int|
            0 <= k < c.len() && slot_entry(#[trigger] c[k]) == p[m] by {
            assert(p[m] == q[m]);
        }
    }

    /// The model after a new stream's first entry.
    proof fn lemma_accept_new_stream(&self, slot: (&'static str, u64, A))
        requires
            slot.1 < self.next_seq,
            forall|i: int| 0 <= i < self.order@.len() ==> (#[trigger] self.order@[i]).0 < slot.1,
            forall|k: int| 0 <= k < self.order@.len() ==> self.order@[k].1 != Some(slot.0@),
            forall|k: int|
                0 <= k < self.continuous@.len() ==> (#[trigger] self.continuous@[k]).0@ != slot.0@,
            arrival_ordered(self.order@),
            one_per_stream(self.order@),
            self.discrete@ == clicks(self.order@),
            forall|a: int, b: int|
                0 <= a < b < self.continuous@.len() ==> (#[trigger] self.continuous@[a]).0@ != (
                #[trigger] self.continuous@[b]).0@,
            forall|k: int|
                0 <= k < self.continuous@.len() ==> self.order@.contains(
                    slot_entry(#[trigger] self.continuous@[k]),
                ),
            forall|m: int|
                0 <= m < self.order@.len() && (#[trigger] self.order@[m]).1 is Some ==> exists|k: int|
                    0 <= k < self.continuous@.len() && slot_entry(#[trigger] self.continuous@[k])
                        == self.order@[m],
        ensures
            ({
                let p = self.order@.push(slot_entry(slot));
                let c = self.continuous@.push(slot);
                &&& arrival_ordered(p)
                &&& one_per_stream(p)
                &&& clicks(p) == self.discrete@
                &&& forall|k: int| 0 <= k < p.len() ==> (#[trigger] p[k]).0 < self.next_seq
                &&& forall|a: int, b: int|
                    0 <= a < b < c.len() ==> (#[trigger] c[a]).0@ != (#[trigger] c[b]).0@
                &&& forall|k: int| 0 <= k < c.len() ==> p.contains(slot_entry(#[trigger] c[k]))
                &&& forall|m: int|
                    0 <= m < p.len() && (#[trigger] p[m]).1 is Some ==> exists|k: int|
                        0 <= k < c.len() && slot_entry(#[trigger] c[k]) == p[m]
            }),
    {
        let q = self.order@;
        let e = slot_entry(slot);
        let p = q.push(e);
        let c0 = self.continuous@;
        let c = c0.push(slot);
        assert(p.drop_last() =~= q);
        assert(p.last() == e);
        assert forall|a: int, b: int|
            0 <= a < b < p.len() && (#[trigger] p[a]).1 is Some implies p[a].1 != (
            #[trigger] p[b]).1 by {
            if b == p.len() - 1 {
                assert(p[a] == q[a]);
            } else {
                assert(p[a] == q[a] && p[b] == q[b]);
            }
        }
        assert forall|k: int| 0 <= k < c.len() implies p.contains(slot_entry(#[trigger] c[k])) by {
            if k == c.len() - 1 {
                assert(p[p.len() - 1] == slot_entry(c[k]));
            } else {
                assert(c[k] == c0[k]);
                assert(q.contains(slot_entry(c0[k])));
                let m = choose|m: int| 0 <= m < q.len() && q[m] == slot_entry(c0[k]);
                assert(p[m] == q[m]);
            }
        }
        assert forall|m: int| 0 <= m < p.len() && (#[trigger] p[m]).1 is Some implies exists|k: int|
            0 <= k < c.len() && slot_entry(#[trigger] c[k]) == p[m] by {
            if m == p.len() - 1 {
                assert(slot_entry(c[c.len() - 1]) == p[m]);
            } else {
                assert(p[m] == q[m]);
                let k = choose|k: int| 0 <= k < c0.len() && slot_entry(#[trigger] c0[k]) == q[m];
                assert(c[k] == c0[k]);
            }
        }
        assert forall|a: int, b: int| 0 <= a < b < c.len() implies (#[trigger] c[a]).0@ != (
        #[trigger] c[b]).0@ by {
            if b == c.len() - 1 {
                assert(c[a] == c0[a]);
            } else {
                assert(c0[a].0@ != c0[b].0@);
            }
        }
    }

    /// The model after a stream's older entry is replaced.
    proof fn lemma_accept_replace(&self, i: int, j: int, slot: (&'static str, u64, A))
        requires
            0 <= i < self.continuous@.len(),
            0 <= j < self.order@.len(),
            slot.0@ == self.continuous@[i].0@,
            self.order@[j] == slot_entry(self.continuous@[i]),
            slot.1 < self.next_seq,
            forall|k: int| 0 <= k < self.order@.len() ==> (#[trigger] self.order@[k]).0 < slot.1,
            arrival_ordered(self.order@),
            one_per_stream(self.order@),
            self.discrete@ == clicks(self.order@),
            forall|a: int, b: int|
                0 <= a < b < self.continuous@.len() ==> (#[trigger] self.continuous@[a]).0@ != (
                #[trigger] self.continuous@[b]).0@,
            forall|k: int|
                0 <= k < self.continuous@.len() ==> self.order@.contains(
                    slot_entry(#[trigger] self.continuous@[k]),
                ),
            forall|m: int|
                0 <= m < self.order@.len() && (#[trigger] self.order@[m]).1 is Some ==> exists|k: int|
                    0 <= k < self.continuous@.len() && slot_entry(#[trigger] self.continuous@[k])
                        == self.order@[m],
        ensures
            ({
                let p = self.order@.remove(j).push(slot_entry(slot));
                let c = self.continuous@.update(i, slot);
                &&& arrival_ordered(p)
                &&& one_per_stream(p)
                &&& p.len() == self.order@.len()
                &&& clicks(p) == self.discrete@
                &&& forall|k: int| 0 <= k < p.len() ==> (#[trigger] p[k]).0 < self.next_seq
                &&& forall|a: int, b: int|
                    0 <= a < b < c.len() ==> (#[trigger] c[a]).0@ != (#[trigger] c[b]).0@
                &&& forall|k: int| 0 <= k < c.len() ==> p.contains(slot_entry(#[trigger] c[k]))
                &&& forall|m: int|
                    0 <= m < p.len() && (#[trigger] p[m]).1 is Some ==> exists|k: int|
                        0 <= k < c.len() && slot_entry(#[trigger] c[k]) == p[m]
            }),
    {
        let q = self.order@;
        let r = q.remove(j);
        let e = slot_entry(slot);
        let p = r.push(e);
        let c0 = self.continuous@;
        let c = c0.update(i, slot);
        assert(p.drop_last() =~= r);
        assert(p.last() == e);
        lemma_clicks_remove_stream(q, j);
        assert(r.len() == q.len() - 1);
        assert forall|k: int| 0 <= k < r.len() implies #[trigger] r[k] == q[if k < j {
            k
        } else {
            k + 1
        }] by {}
        assert forall|a: int, b: int| 0 <= a < b < p.len() implies p[a].0 < p[b].0 by {
            if b == p.len() - 1 {
                assert(p[a] == r[a]);
            } else {
                assert(p[a] == r[a] && p[b] == r[b]);
            }
        }
        assert forall|a: int, b: int|
            0 <= a < b < p.len() && (#[trigger] p[a]).1 is Some implies p[a].1 != (
            #[trigger] p[b]).1 by {
            let a2 = if a < j {
                a
            } else {
                a + 1
            };
            assert(p[a] == r[a]);
            if b == p.len() - 1 {
                assert(p[b].1 == q[j].1);
                assert(a2 != j);
                if a2 < j {
                    assert(q[a2].1 != q[j].1);
                } else {
                    assert(q[j].1 != q[a2].1);
                }
            } else {
                assert(p[b] == r[b]);
            }
        }
        assert forall|k: int| 0 <= k < c.len() implies p.contains(slot_entry(#[trigger] c[k])) by {
            if k == i {
                assert(p[p.len() - 1] == slot_entry(c[k]));
            } else {
                assert(c[k] == c0[k]);
                assert(q.contains(slot_entry(c0[k])));
                let m = choose|m: int| 0 <= m < q.len() && q[m] == slot_entry(c0[k]);
                if k < i {
                    assert(c0[k].0@ != c0[i].0@);
                } else {
                    assert(c0[i].0@ != c0[k].0@);
                }
                assert(m != j);
                let m2 = if m < j {
                    m
                } else {
                    m - 1
                };
                assert(r[m2] == q[m]);
                assert(p[m2] == q[m]);
            }
        }
        assert forall|m: int| 0 <= m < p.len() && (#[trigger] p[m]).1 is Some implies exists|k: int|
            0 <= k < c.len() && slot_entry(#[trigger] c[k]) == p[m] by {
            if m == p.len() - 1 {
                assert(slot_entry(c[i]) == p[m]);
            } else {
                let m2 = if m < j {
                    m
                } else {
                    m + 1
                };
                assert(p[m] == r[m]);
                assert(p[m] == q[m2]);
                let k = choose|k: int| 0 <= k < c0.len() && slot_entry(#[trigger] c0[k]) == q[m2];
                if k == i {
                    assert(q[m2] == q[j]);
                    if m2 < j {
                        assert(q[m2].0 < q[j].0);
                    } else {
                        assert(q[j].0 < q[m2].0);
                    }
                }
                assert(c[k] == c0[k]);
            }
        }
        assert forall|a: int, b: int| 0 <= a < b < c.len() implies (#[trigger] c[a]).0@ != (
        #[trigger] c[b]).0@ by {
            if a == i {
                assert(c0[a].0@ != c0[b].0@);
            } else if b == i {
                assert(c0[a].0@ != c0[b].0@);
            } else {
                assert(c0[a].0@ != c0[b].0@);
            }
        }
    }
}

} // verus!
