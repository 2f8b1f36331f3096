//! The life of one GPU region, as the application can observe it.
//!
//! A region asks its canvas for a context, and a browser that is taking a
//! context away from something else refuses the next one that asks and
//! usually has it a moment later. So a refusal is not yet a failure: the
//! region asks three times, and only the last ask decides. A context that
//! goes away later is not a failure either: the region is rebuilt once the
//! browser gives the canvas a context back, and nothing the application owns
//! is lost, because the region never held any.
//!
//! The canvas, the renderer and the timers are the host's; what lives here is
//! what the region decides each time one of them reports.

use vstd::prelude::*;
use crate::diagnostics::UiError;

verus! {

/// Lifecycle of one GPU region, as the application can observe it.
///
/// `Starting` covers the window between the canvas existing and the region
/// owning a renderer; a region that never gets there ends in `Failed` and
/// leaves the surrounding DOM untouched. `Suspended` is a region whose canvas
/// has no drawable area - hidden, or laid out to zero - and is not a failure.
#[derive(Clone, Copy, Debug, PartialEq, Eq, Structural)]
pub enum RegionState {
    Starting,
    Ready,
    Suspended,
    /// The canvas lost its context, and the region is on its way back.
    Lost,
    Failed(UiError),
    Disposed,
}

impl Default for RegionState {
    fn default() -> (r: RegionState)
        ensures
            r == RegionState::Starting,
    {
        RegionState::Starting
    }
}

/// When a region asks the canvas for a context, in milliseconds counted from
/// the first ask. The last ask is answered well inside the two seconds a
/// failure has to reach the screen.
pub open spec fn gpu_attempts() -> Seq<i32> {
    seq![0, 250, 750]
}

/// How long to wait before ask number `attempt`, counting from zero, or
/// `None` when there are no more.
pub fn gpu_attempt_delay(attempt: usize) -> (r: Option<i32>)
    ensures
        r == (if attempt < gpu_attempts().len() {
            Some(gpu_attempts()[attempt as int])
        } else {
            None
        }),
{
    if attempt == 0 {
        Some(0)
    } else if attempt == 1 {
        Some(250)
    } else if attempt == 2 {
        Some(750)
    } else {
        None
    }
}

/// What the record says about the retry that is about to happen: one text
/// per ask, so that nothing a user typed can reach the record through one.
pub open spec fn retry_text(attempt: usize) -> Seq<char> {
    if attempt == 1 {
        "the canvas gave no WebGL2 context; asking again in 250 ms (2 of 3)"@
    } else {
        "the canvas gave no WebGL2 context; asking again in 750 ms (3 of 3)"@
    }
}

pub fn gpu_retry_detail(attempt: usize) -> (r: &'static str)
    ensures
        r@ == retry_text(attempt),
{
    if attempt == 1 {
        "the canvas gave no WebGL2 context; asking again in 250 ms (2 of 3)"
    } else {
        "the canvas gave no WebGL2 context; asking again in 750 ms (3 of 3)"
    }
}

/// Which region, if any, belongs to the canvas.
#[derive(Clone, Copy, Debug, PartialEq, Eq, Structural)]
pub enum Slot {
    /// None yet, and one may be built.
    Pending,
    /// The region with this id is drawing.
    Live(u32),
    /// None, and none will be: never started, or already destroyed.
    Closed,
}

/// What the host is told to do after the canvas answered an ask.
#[derive(Clone, Copy, Debug, PartialEq, Eq, Structural)]
pub enum Answer {
    /// The region is drawing; publish `Ready` unless the canvas is suspended.
    Live { ready: bool },
    /// Ask again after `wait` milliseconds, as ask number `attempt`.
    Retry { attempt: usize, wait: i32 },
    /// No more asks: the region has failed and the DOM path is what is left.
    Failed,
    /// Nothing was pending; the answer is about a region nobody wants.
    Ignored,
}

/// The region's own bookkeeping between the host's reports.
#[derive(Clone, Copy, Debug, PartialEq, Eq, Structural)]
pub struct Life {
    pub slot: Slot,
    /// Which ask of the canvas this is.
    pub attempt: usize,
    /// Whether the canvas has no drawable area right now.
    pub suspended: bool,
}

/// What an answer from the canvas does.
pub open spec fn after_answer(l: Life, id: Option<u32>) -> (Life, Answer) {
    if l.slot != Slot::Pending {
        (l, Answer::Ignored)
    } else {
        match id {
            Some(id) => (Life { slot: Slot::Live(id), ..l }, Answer::Live { ready: !l.suspended }),
            None => if l.attempt + 1 < gpu_attempts().len() {
                (l, Answer::Retry { attempt: (l.attempt + 1) as usize, wait: gpu_attempts()[l.attempt + 1] })
            } else {
                (Life { slot: Slot::Closed, ..l }, Answer::Failed)
            },
        }
    }
}

impl Life {
    /// A region whose canvas has not been asked yet.
    pub fn new() -> (r: Life)
        ensures
            r == (Life { slot: Slot::Pending, attempt: 0, suspended: false }),
    {
        Life { slot: Slot::Pending, attempt: 0, suspended: false }
    }

    /// Whether the canvas should be asked for a context now.
    pub fn should_ask(&self) -> (r: bool)
        ensures
            r == (self.slot == Slot::Pending),
    {
        self.slot == Slot::Pending
    }

    /// The canvas answered the current ask: with a region, or with no
    /// context.
    pub fn answered(&mut self, id: Option<u32>) -> (r: Answer)
        requires
            old(self).attempt < usize::MAX,
        ensures
            (*final(self), r) == after_answer(*old(self), id),
    {
        if self.slot != Slot::Pending {
            return Answer::Ignored;
        }
        match id {
            Some(id) => {
                self.slot = Slot::Live(id);
                Answer::Live { ready: !self.suspended }
            },
            None => match gpu_attempt_delay(self.attempt + 1) {
                Some(wait) => Answer::Retry { attempt: self.attempt + 1, wait },
                None => {
                    self.slot = Slot::Closed;
                    Answer::Failed
                },
            },
        }
    }

    /// The wait before ask number `attempt` is over.
    pub fn retry_due(&mut self, attempt: usize)
        ensures
            *final(self) == (Life { attempt, ..*old(self) }),
    {
        self.attempt = attempt;
    }

    /// The canvas lost its context. The region that was drawing, if any, is
    /// the one to destroy, and a new one may be built once the context is
    /// back.
    pub fn context_lost(&mut self) -> (r: Option<u32>)
        ensures
            match old(self).slot {
                Slot::Live(id) => r == Some(id) && *final(self) == (Life { slot: Slot::Pending, ..*old(self) }),
                _ => r is None && *final(self) == *old(self),
            },
    {
        match self.slot {
            Slot::Live(id) => {
                self.slot = Slot::Pending;
                Some(id)
            },
            _ => None,
        }
    }

    /// The browser gave the canvas its context back: a fresh start, counting
    /// asks from the first again.
    pub fn context_restored(&mut self)
        ensures
            *final(self) == (Life { attempt: 0, ..*old(self) }),
    {
        self.attempt = 0;
    }

    /// The canvas lost or regained its drawable area; what to publish.
    pub fn suspend(&mut self, now: bool) -> (r: RegionState)
        ensures
            *final(self) == (Life { suspended: now, ..*old(self) }),
            r == (if now {
                RegionState::Suspended
            } else {
                RegionState::Ready
            }),
    {
        self.suspended = now;
        if now {
            RegionState::Suspended
        } else {
            RegionState::Ready
        }
    }

    /// The view went away. The region that was drawing, if any, is the one to
    /// destroy, and no region will be built for this canvas again.
    pub fn close(&mut self) -> (r: Option<u32>)
        ensures
            final(self).slot == Slot::Closed,
            final(self).attempt == old(self).attempt,
            final(self).suspended == old(self).suspended,
            r == match old(self).slot {
                Slot::Live(id) => Some(id),
                _ => None::<u32>,
            },
    {
        let previous = self.slot;
        self.slot = Slot::Closed;
        match previous {
            Slot::Live(id) => Some(id),
            _ => None,
        }
    }
}

/// A canvas is asked at most three times per start and the last ask is made
/// within a second of the first; only the answer to the last one fails the
/// region, and a failed region is never asked again.
pub proof fn law_three_asks_and_then_an_answer(l: Life)
    requires
        l.slot == Slot::Pending,
        l.attempt < gpu_attempts().len(),
    ensures
        after_answer(l, None).1 == Answer::Failed <==> l.attempt == 2,
        after_answer(l, None).1 matches Answer::Retry { attempt, wait } ==> attempt <= 2 && 0 <= wait <= 750,
        gpu_attempts()[0] + gpu_attempts()[1] + gpu_attempts()[2] < 2000,
        after_answer(l, None).1 == Answer::Failed ==> after_answer(after_answer(l, None).0, None).1 == Answer::Ignored,
{
}

} // verus!
