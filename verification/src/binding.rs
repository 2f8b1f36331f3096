//! Delivery of region actions to the application, ordered per mount scope.
//!
//! Regions collect actions while their renderer is dispatching an event and
//! hand them here at the next safe point, so an application callback never
//! runs while a region is borrowed. One sink per scope gives every action in
//! that scope a single acceptance order, whichever region produced it; the
//! order itself is the [`Scheduler`](crate::scheduler::Scheduler)'s, and what
//! lives here is who may drain it and when.

use vstd::prelude::*;
use vstd::std_specs::cmp::PartialEqSpec;
use crate::strings::str_eq;
use crate::scheduler::{without_stream, Admission, Entry, Pace, Scheduler, BATCH, QUEUE_CAPACITY};
use std::sync::Arc;
use std::sync::atomic::{AtomicBool, Ordering};

verus! {

/// Whether the key at `j` equals one before it.
pub open spec fn repeats<K: PartialEqSpec>(keys: Seq<K>, j: int) -> bool {
    exists|i: int| 0 <= i < j && keys[i].eq_spec(&keys[j])
}

/// The position of the first key, from `j` on, that equals one before it.
pub open spec fn first_repeat_from<K: PartialEqSpec>(keys: Seq<K>, j: int) -> Option<int>
    decreases keys.len() - j,
{
    if j < 0 || j >= keys.len() {
        None
    } else if repeats(keys, j) {
        Some(j)
    } else {
        first_repeat_from(keys, j + 1)
    }
}

/// The position of the first key that appears a second time.
pub open spec fn first_repeat<K: PartialEqSpec>(keys: Seq<K>) -> Option<int> {
    first_repeat_from(keys, 0)
}

/// The first key that appears twice, if any.
///
/// A component keyed by business identity cannot be bound to two different
/// values for the same key: whichever one wins, the other silently disappears
/// and the user has no way to tell. Callers report the key and refuse the
/// binding rather than guess.
///
/// What is promised holds for a key type whose `==` is the equality its
/// specification describes, which the integers' is; for keys that are text,
/// [`duplicate_text_key`] makes the same promise.
pub fn duplicate_key<K: PartialEq + Clone>(keys: &[K]) -> (r: Option<K>)
    ensures
        K::obeys_eq_spec() ==> match first_repeat(keys@) {
            Some(j) => r matches Some(k) && cloned::<K>(keys@[j], k),
            None => r is None,
        },
{
    let mut j: usize = 0;
    while j < keys.len()
        invariant
            j <= keys@.len(),
            K::obeys_eq_spec() ==> first_repeat_from(keys@, j as int) == first_repeat(keys@),
        decreases keys@.len() - j,
    {
        let mut i: usize = 0;
        while i < j
            invariant
                i <= j < keys@.len(),
                K::obeys_eq_spec() ==> first_repeat_from(keys@, j as int) == first_repeat(keys@),
                K::obeys_eq_spec() ==> forall|k: int| 0 <= k < i ==> !keys@[k].eq_spec(&keys@[j as int]),
            decreases j - i,
        {
            if keys[i] == keys[j] {
                proof {
                    if K::obeys_eq_spec() {
                        assert(repeats(keys@, j as int));
                    }
                }
                let k = keys[j].clone();
                return Some(k);
            }
            i = i + 1;
        }
        j = j + 1;
    }
    None
}

/// Whether the text key at `j` equals one before it.
pub open spec fn text_repeats(keys: Seq<Seq<char>>, j: int) -> bool {
    exists|i: int| 0 <= i < j && keys[i] == keys[j]
}

/// The position of the first text key, from `j` on, that equals one before
/// it.
pub open spec fn first_text_repeat_from(keys: Seq<Seq<char>>, j: int) -> Option<int>
    decreases keys.len() - j,
{
    if j < 0 || j >= keys.len() {
        None
    } else if text_repeats(keys, j) {
        Some(j)
    } else {
        first_text_repeat_from(keys, j + 1)
    }
}

/// The position of the first text key that appears a second time.
pub open spec fn first_text_repeat(keys: Seq<Seq<char>>) -> Option<int> {
    first_text_repeat_from(keys, 0)
}

/// The text of each key.
pub open spec fn key_texts(keys: Seq<&str>) -> Seq<Seq<char>> {
    keys.map_values(|k: &str| k@)
}

/// [`duplicate_key`] for keys that are text: the first key that appears
/// twice, if any, where two keys are the same when they hold the same
/// characters.
pub fn duplicate_text_key<'a>(keys: &[&'a str]) -> (r: Option<&'a str>)
    ensures
        match first_text_repeat(key_texts(keys@)) {
            Some(j) => r matches Some(k) && k@ == keys@[j]@,
            None => r is None,
        },
{
    let ghost texts = key_texts(keys@);
    let mut j: usize = 0;
    while j < keys.len()
        invariant
            j <= keys@.len(),
            texts == key_texts(keys@),
            first_text_repeat_from(texts, j as int) == first_text_repeat(texts),
        decreases keys@.len() - j,
    {
        let mut i: usize = 0;
        while i < j
            invariant
                i <= j < keys@.len(),
                texts == key_texts(keys@),
                first_text_repeat_from(texts, j as int) == first_text_repeat(texts),
                forall|k: int| 0 <= k < i ==> texts[k] != texts[j as int],
            decreases j - i,
        {
            if str_eq(keys[i], keys[j]) {
                assert(texts[i as int] == texts[j as int]);
                assert(text_repeats(texts, j as int));
                return Some(keys[j]);
            }
            i = i + 1;
        }
        assert(!text_repeats(texts, j as int));
        j = j + 1;
    }
    None
}

/// Who may drain a scope's queue, and whether a drain is owed.
///
/// One drain runs at a time, and an action a callback submits during a drain
/// joins the queue instead of running inside it. A drain is "armed" once
/// somebody has arranged for it to run; arranging it again would only run
/// the same queue twice.
#[derive(Clone, Copy, Debug, Default, PartialEq, Eq, Structural)]
pub struct Drain {
    pub draining: bool,
    pub armed: bool,
}

impl Drain {
    pub open spec fn new_spec() -> Drain {
        Drain { draining: false, armed: false }
    }

    pub fn new() -> (r: Drain)
        ensures
            r == Drain::new_spec(),
    {
        Drain { draining: false, armed: false }
    }

    /// Claims the right to arrange the drain. False when a drain is already
    /// running or already arranged, in which case that one will pick up
    /// whatever was just submitted.
    pub fn arm(&mut self) -> (r: bool)
        ensures
            r == !old(self).armed,
            *final(self) == (Drain { armed: true, ..*old(self) }),
    {
        if self.armed {
            return false;
        }
        self.armed = true;
        true
    }

    /// Starts a drain: false when one is already running, which then owns the
    /// queue; true when the caller now holds it and takes one batch.
    pub fn begin(&mut self) -> (r: bool)
        ensures
            r == !old(self).draining,
            *final(self) == (Drain { draining: true, ..*old(self) }),
    {
        if self.draining {
            return false;
        }
        self.draining = true;
        true
    }

    /// Ends a drain. `more` says whether actions are still waiting, in which
    /// case the drain stays armed and the caller owes the browser a turn
    /// before draining again. Returns whether it does.
    pub fn end(&mut self, more: bool) -> (r: bool)
        ensures
            r == more,
            *final(self) == (Drain { draining: false, armed: more }),
    {
        self.draining = false;
        self.armed = more;
        self.armed
    }
}

/// One scope's actions and the right to drain them: the order is the
/// scheduler's, and the drain is what keeps a callback's own submissions out
/// of the batch it is running in.
pub struct Sink<A> {
    scheduler: Scheduler<A>,
    drain: Drain,
}

impl<A> Sink<A> {
    /// The scheduler's invariant holds.
    pub closed spec fn wf(&self) -> bool {
        self.scheduler.wf()
    }

    /// Everything pending, in arrival order.
    pub closed spec fn queue(&self) -> Seq<Entry<A>> {
        self.scheduler.queue()
    }

    /// The sequence number the next accepted action gets.
    pub closed spec fn next(&self) -> u64 {
        self.scheduler.next()
    }

    pub closed spec fn capacity(&self) -> usize {
        self.scheduler.capacity()
    }

    pub closed spec fn batch_size(&self) -> usize {
        self.scheduler.batch_size()
    }

    /// How many discrete actions are waiting; streams do not count.
    pub closed spec fn waiting_clicks(&self) -> nat {
        self.scheduler.waiting_clicks()
    }

    /// Where the drain is.
    pub closed spec fn drain_state(&self) -> Drain {
        self.drain
    }

    /// An empty sink with the default queue depth and batch, not draining.
    pub fn new() -> (r: Sink<A>)
        ensures
            r.wf(),
            r.queue() == Seq::<Entry<A>>::empty(),
            r.next() == 0,
            r.capacity() == QUEUE_CAPACITY,
            r.batch_size() == BATCH,
            r.drain_state() == Drain::new_spec(),
    {
        Sink { scheduler: Scheduler::new(), drain: Drain::new() }
    }

    /// Queues one action (see [`Scheduler::accept`]): an accepted action
    /// carries its place in the scope's order, and a refused one was never
    /// given a place and will not run.
    pub fn submit(&mut self, pace: Pace, action: A) -> (r: Admission)
        requires
            old(self).wf(),
            old(self).next() < u64::MAX,
            old(self).queue().len() < usize::MAX,
        ensures
            final(self).wf(),
            final(self).capacity() == old(self).capacity(),
            final(self).batch_size() == old(self).batch_size(),
            final(self).drain_state() == old(self).drain_state(),
            match pace {
                Pace::Discrete => if old(self).waiting_clicks() < old(self).capacity() {
                    &&& r == Admission::Accepted(old(self).next())
                    &&& final(self).next() == old(self).next() + 1
                    &&& final(self).queue() == old(self).queue().push((old(self).next(), None, action))
                } else {
                    &&& r == Admission::Backpressure
                    &&& final(self).next() == old(self).next()
                    &&& final(self).queue() == old(self).queue()
                },
                Pace::Continuous(name) => {
                    &&& r == Admission::Accepted(old(self).next())
                    &&& final(self).next() == old(self).next() + 1
                    &&& final(self).queue() == without_stream(old(self).queue(), name@).push(
                        (old(self).next(), Some(name@), action),
                    )
                },
            },
    {
        self.scheduler.accept(pace, action)
    }

    /// Claims the right to arrange a drain (see [`Drain::arm`]).
    pub fn arm(&mut self) -> (r: bool)
        requires
            old(self).wf(),
        ensures
            final(self).wf(),
            r == !old(self).drain_state().armed,
            final(self).drain_state() == (Drain { armed: true, ..old(self).drain_state() }),
            final(self).queue() == old(self).queue(),
            final(self).next() == old(self).next(),
    {
        self.drain.arm()
    }

    /// Starts a drain and takes one batch, in arrival order; `None` while a
    /// drain is already running, which owns the queue.
    pub fn begin_drain(&mut self) -> (r: Option<Vec<A>>)
        requires
            old(self).wf(),
        ensures
            final(self).wf(),
            final(self).next() == old(self).next(),
            final(self).capacity() == old(self).capacity(),
            final(self).batch_size() == old(self).batch_size(),
            final(self).drain_state() == (Drain { draining: true, ..old(self).drain_state() }),
            if old(self).drain_state().draining {
                r is None && final(self).queue() == old(self).queue()
            } else {
                let k = if old(self).batch_size() < old(self).queue().len() {
                    old(self).batch_size() as int
                } else {
                    old(self).queue().len() as int
                };
                &&& r matches Some(batch) && batch@ == old(self).queue().take(k).map_values(|e: Entry<A>| e.2)
                &&& final(self).queue() == old(self).queue().skip(k)
            },
    {
        if !self.drain.begin() {
            return None;
        }
        Some(self.scheduler.take_batch())
    }

    /// Ends a drain, and says whether actions are still waiting, in which
    /// case the drain stays armed and the caller owes the browser a turn
    /// before draining again.
    pub fn end_drain(&mut self) -> (r: bool)
        requires
            old(self).wf(),
        ensures
            final(self).wf(),
            r == (old(self).queue().len() > 0),
            final(self).drain_state() == (Drain { draining: false, armed: r }),
            final(self).queue() == old(self).queue(),
            final(self).next() == old(self).next(),
    {
        let more = !self.scheduler.is_empty();
        self.drain.end(more)
    }

    /// The sequence number the next accepted action will get.
    pub fn next_seq(&self) -> (r: u64)
        ensures
            r == self.next(),
    {
        self.scheduler.next_seq()
    }

    /// How many actions are waiting.
    pub fn pending(&self) -> (r: usize)
        requires
            self.wf(),
        ensures
            r == self.queue().len(),
    {
        self.scheduler.pending()
    }
}

/// One component's right to have its actions delivered.
///
/// A delivery already queued holds the component's callback directly, so
/// dropping the component is not enough to stop it: the binding is what the
/// queued item checks when its turn finally comes. Clones share one switch,
/// and whether it is open is that shared state, read at the moment of asking:
/// no contract here can say what another clone has done to it.
#[derive(Clone)]
pub struct Binding(Arc<AtomicBool>);

impl Binding {
    /// A binding that is open.
    pub fn new() -> Binding {
        Binding(Arc::new(AtomicBool::new(true)))
    }

    /// Ends the binding, for this handle and every clone of it. Every
    /// delivery still queued for it is skipped.
    pub fn close(&self) {
        self.0.store(false, Ordering::Relaxed);
    }

    /// Whether the binding is still open.
    pub fn is_open(&self) -> bool {
        self.0.load(Ordering::Relaxed)
    }

    /// Wraps `deliver` so it runs only while the binding is still open.
    pub fn guard<F: FnOnce()>(&self, deliver: F) -> (r: impl FnOnce())
        requires
            deliver.requires(()),
        ensures
            r.requires(()),
    {
        let binding = self.clone();
        move ||
            requires
                deliver.requires(()),
            {
                if binding.is_open() {
                    deliver();
                }
            }
    }
}

impl Default for Binding {
    fn default() -> Binding {
        Binding::new()
    }
}

} // verus!
