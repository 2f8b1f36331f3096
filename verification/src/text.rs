//! Editing text the application owns, in the browser's own text controls.
//!
//! Two controllers. A text field or text area reports what was typed and is
//! then put back in step with the application, except while an input method
//! is composing: the keys used to look a character up are not a value. And a
//! native control laid over text a GPU region drew is one editing session
//! that ends exactly once - committed, cancelled, or invalidated because the
//! application's value moved underneath it.

use vstd::prelude::*;
use crate::strings::str_eq;

verus! {

/// What a text control does after an event: whether the application is told
/// what the control holds, and whether the control is then put back to the
/// application's value.
#[derive(Clone, Copy, Debug, PartialEq, Eq, Structural)]
pub struct Reaction {
    pub report: bool,
    pub settle: bool,
}

/// The composing state of one text field or text area.
#[derive(Clone, Copy, Debug, Default, PartialEq, Eq, Structural)]
pub struct Typing {
    pub composing: bool,
}

impl Typing {
    /// An input method started composing.
    pub fn composition_start(&mut self)
        ensures
            final(self).composing,
    {
        self.composing = true;
    }

    /// An input method finished: the field holds a value for the first time
    /// since the composition began, and it is reported unless the control is
    /// disabled or read-only.
    pub fn composition_end(&mut self, disabled: bool, read_only: bool) -> (r: Reaction)
        ensures
            !final(self).composing,
            r == (Reaction { report: !disabled && !read_only, settle: true }),
    {
        self.composing = false;
        Reaction { report: !disabled && !read_only, settle: true }
    }

    /// The control's value changed. A composition in flight is not a value:
    /// nothing is reported and nothing is written back, which would take the
    /// input method's own text out of the field.
    pub fn input(&self, disabled: bool, read_only: bool) -> (r: Reaction)
        ensures
            r == (if self.composing {
                Reaction { report: false, settle: false }
            } else {
                Reaction { report: !disabled && !read_only, settle: true }
            }),
    {
        if self.composing {
            Reaction { report: false, settle: false }
        } else {
            Reaction { report: !disabled && !read_only, settle: true }
        }
    }
}

/// A change to a checkbox: asked for unless the control is disabled or
/// read-only, and in every case the box is then put back the way the
/// application has it.
pub fn checkbox_change(disabled: bool, read_only: bool) -> (r: Reaction)
    ensures
        r == (Reaction { report: !disabled && !read_only, settle: true }),
{
    Reaction { report: !disabled && !read_only, settle: true }
}

/// Whether settling has to write: only when what the control shows is not
/// what the application holds.
pub fn needs_settle(shown: &str, held: &str) -> (r: bool)
    ensures
        r == (shown@ != held@),
{
    !str_eq(shown, held)
}

/// What the native control over a region's text is told to do.
#[derive(Clone, Copy, Debug, PartialEq, Eq, Structural)]
pub enum EditAction {
    /// Nothing.
    Nothing,
    /// Take the application's value, focus, and select it all: the session
    /// opens.
    Open,
    /// Hand what the control holds to the application: the session is over.
    Commit,
    /// Tell the application the edit was abandoned.
    Cancel,
    /// Tell the application its value moved underneath the session, which
    /// dropped the draft rather than writing it over the new value.
    Invalidated,
}

/// One editing session over a region's text.
#[derive(Clone, Debug, PartialEq, Eq)]
pub struct EditSession {
    /// The value the session opened with.
    pub opened_with: Option<String>,
    /// Whether the session has ended, one way or another.
    pub finished: bool,
    pub composing: bool,
    pub multiline: bool,
}

impl EditSession {
    pub fn new(multiline: bool) -> (r: EditSession)
        ensures
            r.opened_with is None,
            !r.finished,
            !r.composing,
            r.multiline == multiline,
    {
        EditSession { opened_with: None, finished: false, composing: false, multiline }
    }

    /// Ends the session, and says whether this call was the one that ended it.
    fn finish(&mut self) -> (first: bool)
        ensures
            first == !old(self).finished,
            final(self).finished,
            final(self).opened_with == old(self).opened_with,
            final(self).composing == old(self).composing,
            final(self).multiline == old(self).multiline,
    {
        let was = self.finished;
        self.finished = true;
        !was
    }

    /// The application's value, as it is now. The first one the session sees
    /// opens it; a different one later ends it.
    pub fn value_seen(&mut self, current: String) -> (r: EditAction)
        ensures
            match old(self).opened_with {
                None => r == EditAction::Open && final(self).opened_with == Some(current)
                    && final(self).finished == old(self).finished,
                Some(started) => if started@ != current@ {
                    final(self).finished && r == (if old(self).finished {
                        EditAction::Nothing
                    } else {
                        EditAction::Invalidated
                    })
                } else {
                    r == EditAction::Nothing && final(self).finished == old(self).finished
                },
            },
            final(self).composing == old(self).composing,
            final(self).multiline == old(self).multiline,
            old(self).opened_with is Some ==> final(self).opened_with == old(self).opened_with,
    {
        let changed = match &self.opened_with {
            None => {
                self.opened_with = Some(current);
                return EditAction::Open;
            },
            Some(started) => !str_eq(started.as_str(), current.as_str()),
        };
        if changed {
            if self.finish() {
                EditAction::Invalidated
            } else {
                EditAction::Nothing
            }
        } else {
            EditAction::Nothing
        }
    }

    /// The control lost focus, or Enter committed: the session commits,
    /// exactly once.
    pub fn commit(&mut self) -> (r: EditAction)
        ensures
            final(self).finished,
            r == (if old(self).finished {
                EditAction::Nothing
            } else {
                EditAction::Commit
            }),
            final(self).opened_with == old(self).opened_with,
            final(self).composing == old(self).composing,
            final(self).multiline == old(self).multiline,
    {
        if self.finish() {
            EditAction::Commit
        } else {
            EditAction::Nothing
        }
    }

    /// Escape, from the scope: the session is abandoned, exactly once.
    pub fn cancel(&mut self) -> (r: EditAction)
        ensures
            final(self).finished,
            r == (if old(self).finished {
                EditAction::Nothing
            } else {
                EditAction::Cancel
            }),
            final(self).opened_with == old(self).opened_with,
            final(self).composing == old(self).composing,
            final(self).multiline == old(self).multiline,
    {
        if self.finish() {
            EditAction::Cancel
        } else {
            EditAction::Nothing
        }
    }

    /// An input method started or stopped composing.
    pub fn composition(&mut self, active: bool)
        ensures
            final(self).composing == active,
            final(self).finished == old(self).finished,
            final(self).opened_with == old(self).opened_with,
            final(self).multiline == old(self).multiline,
    {
        self.composing = active;
    }

    /// A key went down in the control. While composing the keys belong to
    /// the composition: Enter's default action is stopped and nothing else
    /// happens. Otherwise Enter in a single-line control commits. Returns
    /// whether the key's default action is stopped, and what happens.
    pub fn key(&mut self, enter: bool) -> (r: (bool, EditAction))
        ensures
            r.0 == (enter && (old(self).composing || !old(self).multiline)),
            r.1 == (if old(self).composing || !enter || old(self).multiline || old(self).finished {
                EditAction::Nothing
            } else {
                EditAction::Commit
            }),
            final(self).finished == (old(self).finished || (enter && !old(self).composing
                && !old(self).multiline)),
            final(self).opened_with == old(self).opened_with,
            final(self).composing == old(self).composing,
            final(self).multiline == old(self).multiline,
    {
        if self.composing {
            return (enter, EditAction::Nothing);
        }
        if enter && !self.multiline {
            let action = self.commit();
            return (true, action);
        }
        (false, EditAction::Nothing)
    }
}

} // verus!
