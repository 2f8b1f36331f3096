//! Which asynchronous result is still allowed to take effect.
//!
//! A request that cannot be cancelled still runs; what it must not do is
//! arrive late and undo a newer answer, or reach a view that has gone. A
//! ticket is a request's right to deliver: it is issued in order, it goes
//! stale the moment a newer one is issued, and it ends with the holder.

use vstd::prelude::*;
use crate::diagnostics::{ui_error_text, UiError};
use crate::i18n::{message_text, Locale, Message};
use crate::strings::push_str;

verus! {

/// The four states an asynchronous value is shown in.
///
/// `Empty` is a real answer - the request succeeded and there is nothing -
/// which is why it is not spelled `Ready(None)`: a view that cannot tell the
/// two apart shows a spinner forever.
#[derive(Clone, Copy, Debug, PartialEq, Eq)]
pub enum Load<T> {
    Loading,
    Empty,
    Ready(T),
    Error(UiError),
}

impl<T> Default for Load<T> {
    fn default() -> (r: Load<T>)
        ensures
            r is Loading,
    {
        Load::Loading
    }
}

/// The name a view shows for a state.
pub open spec fn load_name<T>(l: Load<T>) -> Seq<char> {
    match l {
        Load::Loading => "loading"@,
        Load::Empty => "empty"@,
        Load::Ready(_) => "ready"@,
        Load::Error(_) => "error"@,
    }
}

impl<T> Load<T> {
    pub fn is_loading(&self) -> (r: bool)
        ensures
            r == (*self is Loading),
    {
        match self {
            Load::Loading => true,
            _ => false,
        }
    }

    pub fn ready(&self) -> (r: Option<&T>)
        ensures
            match self {
                Load::Ready(v) => r == Some(v),
                _ => r is None,
            },
    {
        match self {
            Load::Ready(value) => Some(value),
            _ => None,
        }
    }

    pub fn error(&self) -> (r: Option<UiError>)
        ensures
            match self {
                Load::Error(e) => r == Some(*e),
                _ => r is None,
            },
    {
        match self {
            Load::Error(error) => Some(*error),
            _ => None,
        }
    }

    /// The name a view can show without knowing what `T` is.
    pub fn state(&self) -> (r: &'static str)
        ensures
            r@ == load_name(*self),
    {
        match self {
            Load::Loading => "loading",
            Load::Empty => "empty",
            Load::Ready(_) => "ready",
            Load::Error(_) => "error",
        }
    }
}

/// What a view of a load says: the SDK's words for a wait, an empty answer
/// and a failure, in the scope's language, and the application's value and
/// the failure's reason as they are.
pub open spec fn load_status(l: Load<String>, locale: Locale) -> Seq<char> {
    match l {
        Load::Loading => message_text(Message::Loading, locale)@,
        Load::Empty => message_text(Message::Empty, locale)@,
        Load::Ready(v) => v@,
        Load::Error(e) => message_text(Message::LoadFailed, locale)@ + ": "@ + ui_error_text(e) + "; "@
            + message_text(Message::Retry, locale)@,
    }
}

impl Load<String> {
    /// What a view of this load says in `locale` (see [`load_status`]).
    pub fn status(&self, locale: Locale) -> (r: String)
        ensures
            r@ == load_status(*self, locale),
    {
        match self {
            Load::Loading => Message::Loading.text(locale).to_owned(),
            Load::Empty => Message::Empty.text(locale).to_owned(),
            Load::Ready(v) => v.clone(),
            Load::Error(e) => {
                let mut out = String::new();
                push_str(&mut out, Message::LoadFailed.text(locale));
                push_str(&mut out, ": ");
                push_str(&mut out, e.message());
                push_str(&mut out, "; ");
                push_str(&mut out, Message::Retry.text(locale));
                assert(out@ =~= load_status(*self, locale));
                out
            },
        }
    }
}

/// One field's requests, as the numbers of their tickets: the next number to
/// hand out, the newest one handed out, and whether the view they deliver
/// into is still there.
#[derive(Clone, Copy, Debug, PartialEq, Eq, Structural)]
pub struct Tickets {
    pub next: u64,
    pub latest: u64,
    pub open: bool,
}

/// Whether ticket `seq` may still take effect: it is the newest one, and its
/// holder is still there.
pub open spec fn current(t: Tickets, seq: u64) -> bool {
    t.open && t.latest == seq
}

impl Tickets {
    /// The numbers start at one; none has been handed out.
    pub fn new() -> (r: Tickets)
        ensures
            r == (Tickets { next: 1, latest: 0, open: true }),
    {
        Tickets { next: 1, latest: 0, open: true }
    }

    /// Starts a request and returns its ticket. Every ticket issued before
    /// this one is now stale, whether or not it has answered.
    pub fn issue(&mut self) -> (r: u64)
        requires
            old(self).next < u64::MAX,
        ensures
            r == old(self).next,
            *final(self) == (Tickets { next: (old(self).next + 1) as u64, latest: r, ..*old(self) }),
    {
        let seq = self.next;
        self.next = self.next + 1;
        self.latest = seq;
        seq
    }

    /// Ends the current request without starting one: the ticket that was
    /// current stops being current, and the number it lost to belongs to
    /// nothing, so nothing can deliver.
    pub fn cancel(&mut self)
        requires
            old(self).next < u64::MAX,
        ensures
            *final(self) == (Tickets { next: (old(self).next + 1) as u64, latest: old(self).next, ..*old(self) }),
    {
        self.issue();
    }

    /// Ends every ticket. The view has gone; nothing may deliver into it.
    pub fn close(&mut self)
        ensures
            *final(self) == (Tickets { open: false, ..*old(self) }),
    {
        self.open = false;
    }

    pub fn is_open(&self) -> (r: bool)
        ensures
            r == self.open,
    {
        self.open
    }

    /// Whether ticket `seq` may still take effect.
    pub fn is_current(&self, seq: u64) -> (r: bool)
        ensures
            r == current(*self, seq),
    {
        self.open && self.latest == seq
    }
}

/// Tickets are handed out in order and each is new: numbers below `next`
/// have been used.
pub open spec fn issued_in_order(t: Tickets) -> bool {
    t.latest < t.next
}

/// Only the newest request may deliver: after a new ticket is issued, no
/// earlier ticket is current; after a cancel, no ticket handed out so far is;
/// after a close, none is at all.
pub proof fn law_only_the_newest_request_delivers(t: Tickets, seq: u64)
    requires
        issued_in_order(t),
        t.next < u64::MAX,
        seq < t.next,
    ensures
        !current(Tickets { next: (t.next + 1) as u64, latest: t.next, ..t }, seq),
        current(Tickets { next: (t.next + 1) as u64, latest: t.next, ..t }, t.next) == t.open,
        issued_in_order(Tickets { next: (t.next + 1) as u64, latest: t.next, ..t }),
        !current(Tickets { open: false, ..t }, seq),
{
}

} // verus!
