//! A short status message that goes away on its own.
//!
//! One at a time: a newer message replaces the one showing, rather than
//! queueing behind it, because a status that arrives late describes a state the
//! application has already left. Each message gets a number that only ever
//! rises, so a timer set for one of them can tell that it has been replaced
//! and must not hide its successor.
//!
//! When a message's time is up is a question about the clock, which is the
//! host's; what lives here is which message is showing and what a timer that
//! fires finds.

use vstd::prelude::*;

verus! {

/// How long a message stays up when the caller does not say: long enough to
/// read a sentence, short enough not to cover what it is about for long.
pub const DEFAULT_DURATION_MS: u32 = 3200;

/// What kind of news a message is. It changes how the message looks and
/// nothing else.
#[derive(Clone, Copy, Debug, PartialEq, Eq, Hash, Structural)]
pub enum ToastTone {
    Neutral,
    Success,
    Warning,
    Error,
}

impl Default for ToastTone {
    fn default() -> (r: ToastTone)
        ensures
            r == ToastTone::Neutral,
    {
        ToastTone::Neutral
    }
}

pub open spec fn tone_key(t: ToastTone) -> Seq<char> {
    match t {
        ToastTone::Neutral => "neutral"@,
        ToastTone::Success => "success"@,
        ToastTone::Warning => "warning"@,
        ToastTone::Error => "error"@,
    }
}

impl ToastTone {
    /// A stable name, for a `data-tone` attribute a stylesheet can select on.
    pub fn key(self) -> (r: &'static str)
        ensures
            r@ == tone_key(self),
    {
        match self {
            ToastTone::Neutral => "neutral",
            ToastTone::Success => "success",
            ToastTone::Warning => "warning",
            ToastTone::Error => "error",
        }
    }
}

/// How one message is shown. The default is 3.2 seconds, neutral.
#[derive(Clone, Copy, Debug, PartialEq, Eq, Structural)]
pub struct ToastOptions {
    /// How long it stays up, in milliseconds.
    pub duration_ms: u32,
    pub tone: ToastTone,
}

impl Default for ToastOptions {
    fn default() -> (r: ToastOptions)
        ensures
            r == (ToastOptions { duration_ms: DEFAULT_DURATION_MS, tone: ToastTone::Neutral }),
    {
        ToastOptions { duration_ms: DEFAULT_DURATION_MS, tone: ToastTone::Neutral }
    }
}

/// The message that is showing.
#[derive(Clone, Debug, PartialEq, Eq)]
pub struct Toast {
    /// Rises with every message shown in this scope.
    pub seq: u64,
    pub message: String,
    pub tone: ToastTone,
}

/// What a message's timer finds when it fires.
#[derive(Clone, Copy, Debug, PartialEq, Eq, Structural)]
pub enum Expiry {
    /// The message was showing and its time was up; it is gone now.
    Hidden,
    /// The message had already been replaced or dismissed.
    Gone,
    /// The timer fired early - timers are coarse - and the message stays.
    Early,
}

/// The scope's messages: the last number handed out, and the one showing.
#[derive(Clone, Debug)]
pub struct Toasts {
    pub last: u64,
    pub showing: Option<Toast>,
}

impl Default for Toasts {
    fn default() -> (r: Toasts)
        ensures
            r.last == 0,
            r.showing is None,
    {
        Toasts { last: 0, showing: None }
    }
}

/// What showing `message` does: it takes the next number and replaces
/// whatever was showing.
pub open spec fn shown(t: Toasts, message: String, options: ToastOptions) -> Toasts {
    Toasts {
        last: (t.last + 1) as u64,
        showing: Some(Toast { seq: (t.last + 1) as u64, message, tone: options.tone }),
    }
}

/// Whether message `seq` is the one showing.
pub open spec fn is_showing(t: Toasts, seq: u64) -> bool {
    t.showing matches Some(x) && x.seq == seq
}

/// What message `seq`'s timer finds, with `time_up` saying whether its time
/// is up by the clock.
pub open spec fn expiry(t: Toasts, seq: u64, time_up: bool) -> Expiry {
    if !is_showing(t, seq) {
        Expiry::Gone
    } else if time_up {
        Expiry::Hidden
    } else {
        Expiry::Early
    }
}

/// The messages after message `seq`'s timer fired.
pub open spec fn after_expiry(t: Toasts, seq: u64, time_up: bool) -> Toasts {
    if expiry(t, seq, time_up) == Expiry::Hidden {
        Toasts { showing: None, ..t }
    } else {
        t
    }
}

/// The messages after message `seq` was dismissed.
pub open spec fn after_dismiss(t: Toasts, seq: u64) -> Toasts {
    if is_showing(t, seq) {
        Toasts { showing: None, ..t }
    } else {
        t
    }
}

impl Toasts {
    /// Shows `message` in place of whatever was showing, and returns its
    /// number.
    pub fn show(&mut self, message: String, options: ToastOptions) -> (r: u64)
        requires
            old(self).last < u64::MAX,
        ensures
            *final(self) == shown(*old(self), message, options),
            r == final(self).last,
    {
        self.last = self.last + 1;
        self.showing = Some(Toast { seq: self.last, message, tone: options.tone });
        self.last
    }

    /// The message showing now.
    pub fn current(&self) -> (r: Option<&Toast>)
        ensures
            r == match &self.showing {
                Some(t) => Some(t),
                None => None::<&Toast>,
            },
    {
        match &self.showing {
            Some(t) => Some(t),
            None => None,
        }
    }

    /// Hides message `seq` if it is still the one showing, and says whether
    /// it was.
    pub fn dismiss(&mut self, seq: u64) -> (r: bool)
        ensures
            r == is_showing(*old(self), seq),
            *final(self) == after_dismiss(*old(self), seq),
    {
        let showing = match &self.showing {
            Some(t) => t.seq == seq,
            None => false,
        };
        if showing {
            self.showing = None;
        }
        showing
    }

    /// Message `seq`'s timer fired, and `time_up` says whether its time is up
    /// by the clock. It is hidden only if it is still the one showing.
    pub fn expire(&mut self, seq: u64, time_up: bool) -> (r: Expiry)
        ensures
            r == expiry(*old(self), seq, time_up),
            *final(self) == after_expiry(*old(self), seq, time_up),
    {
        let ours = match &self.showing {
            Some(t) => t.seq == seq,
            None => false,
        };
        if !ours {
            return Expiry::Gone;
        }
        if time_up {
            self.showing = None;
            Expiry::Hidden
        } else {
            Expiry::Early
        }
    }
}

/// Every message gets a higher number than any before it, and once it shows,
/// a timer or a dismissal aimed at an earlier number finds it gone and
/// changes nothing: a replaced message never hides its successor.
pub proof fn law_a_timer_never_hides_a_successor(
    t: Toasts,
    message: String,
    options: ToastOptions,
    seq: u64,
    time_up: bool,
)
    requires
        t.last < u64::MAX,
        seq <= t.last,
    ensures
        shown(t, message, options).last > t.last,
        expiry(shown(t, message, options), seq, time_up) == Expiry::Gone,
        after_expiry(shown(t, message, options), seq, time_up) == shown(t, message, options),
        after_dismiss(shown(t, message, options), seq) == shown(t, message, options),
{
}

} // verus!
