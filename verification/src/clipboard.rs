//! Copying and pasting, and what to do when the clipboard says no.
//!
//! The clipboard is the one capability here that a person can refuse and a
//! browser can withhold, so every path through this module ends somewhere the
//! application can act on. A refusal is never reported as a success: a control
//! that says "copied" when nothing was copied is worse than one that says it
//! could not, because the user finds out later, somewhere else.

use vstd::prelude::*;

verus! {

/// Why the clipboard did not answer.
#[derive(Clone, Copy, Debug, PartialEq, Eq, Structural)]
pub enum ClipboardError {
    /// The page does not have permission - the user declined, the document is
    /// not focused, or the browser requires a gesture this was not part of.
    Denied,
    /// This build cannot reach the clipboard at all. See [`available`]: a
    /// build without it should offer the manual path from the start rather
    /// than at the moment somebody presses copy.
    Unavailable,
}

/// What a clipboard failure says, in words.
pub open spec fn clipboard_error_text(e: ClipboardError) -> Seq<char> {
    match e {
        ClipboardError::Denied => "the browser refused the clipboard"@,
        ClipboardError::Unavailable => "this build cannot reach the clipboard"@,
    }
}

impl ClipboardError {
    /// What to tell the person, in words.
    pub fn message(self) -> (r: &'static str)
        ensures
            r@ == clipboard_error_text(self),
    {
        match self {
            ClipboardError::Denied => "the browser refused the clipboard",
            ClipboardError::Unavailable => "this build cannot reach the clipboard",
        }
    }
}

/// Whether this build can reach a browser's clipboard. It is a property of
/// how the code was built rather than of where it runs, and a build for a
/// host has no browser to ask: the answer is no, at the moment the
/// application asks rather than at the moment somebody presses copy.
pub fn available() -> (r: bool)
    ensures
        !r,
{
    false
}

/// Puts `text` on the clipboard, and says what happened. A build that cannot
/// reach the clipboard answers at once, in the same form as a refusal.
pub fn copy<F: FnOnce(Result<(), ClipboardError>)>(text: &str, done: F)
    requires
        done.requires((Err(ClipboardError::Unavailable),)),
    ensures
        done.ensures((Err(ClipboardError::Unavailable),), ()),
{
    done(Err(ClipboardError::Unavailable));
}

/// Reads the clipboard, and says what came of it. A build that cannot reach
/// the clipboard answers at once, in the same form as a refusal.
pub fn paste<F: FnOnce(Result<String, ClipboardError>)>(done: F)
    requires
        done.requires((Err(ClipboardError::Unavailable),)),
    ensures
        done.ensures((Err(ClipboardError::Unavailable),), ()),
{
    done(Err(ClipboardError::Unavailable));
}

/// What a write to a browser's clipboard came to: done, or refused -
/// permission, focus, or a gesture it was not part of, which the application
/// answers the same way.
pub fn written(accepted: bool) -> (r: Result<(), ClipboardError>)
    ensures
        r == (if accepted {
            Ok(())
        } else {
            Err(ClipboardError::Denied)
        }),
{
    if accepted {
        Ok(())
    } else {
        Err(ClipboardError::Denied)
    }
}

/// What a read of a browser's clipboard came to: its text, or a refusal. A
/// read that gave something other than text is as unusable as a refused one,
/// and arrives the same way.
pub fn read(text: Option<String>) -> (r: Result<String, ClipboardError>)
    ensures
        r == match text {
            Some(t) => Ok::<String, ClipboardError>(t),
            None => Err(ClipboardError::Denied),
        },
{
    match text {
        Some(t) => Ok(t),
        None => Err(ClipboardError::Denied),
    }
}

} // verus!
