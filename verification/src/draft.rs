//! A text field that keeps what is being typed while it has focus.
//!
//! This is the one exception to controlled values. A strictly controlled field
//! puts the application's value back after every keystroke, which is right for
//! free text and wrong for a number or a colour: `-`, `1e` and `#1f` are on
//! the way to a value without being one, and an application that refuses them
//! would wipe them out from under the person typing.
//!
//! The exception is bounded. Only a focused field shows a draft, and only
//! once something has been typed; the application's value is what everything
//! else shows, and what the field goes back to when it loses focus. The
//! application is still asked for every change and still decides:
//!
//! - every input that parses is a preview request, which the application may
//!   refuse without the draft being lost;
//! - Enter or leaving the field is one commit request; text that does not
//!   parse commits the last preview if there was one, and otherwise nothing;
//! - Escape drops the draft and asks for any preview to be taken back.

use vstd::prelude::*;
use crate::strings::str_eq;

verus! {

/// What has been typed since focus, a commit or a revert.
#[derive(Clone, Debug, PartialEq)]
pub struct Edit<T> {
    pub text: String,
    /// What `text` parses to.
    pub value: Option<T>,
    /// The last value asked for as a preview during this edit.
    pub previewed: Option<T>,
}

/// One field's edit, apart from the page.
#[derive(Clone, Debug, PartialEq)]
pub struct Session<T> {
    pub focused: bool,
    /// `None` while untouched, and then the field shows the application's
    /// value.
    pub edit: Option<Edit<T>>,
}

/// What the field asks of the application.
#[derive(Clone, Copy, Debug, PartialEq)]
pub enum Request<T> {
    /// Show this value for now; the edit is not over.
    Preview(T),
    /// The edit is over, and this is the value it settled on.
    Commit(T),
    /// The edit was abandoned: take back what the previews did.
    Cancel,
}

impl<T> Default for Session<T> {
    fn default() -> (r: Session<T>)
        ensures
            !r.focused,
            r.edit is None,
    {
        Session { focused: false, edit: None }
    }
}

/// What ending an edit asks for: its value if the text parses, and otherwise
/// the last preview, if there was one.
pub open spec fn commit_request<T>(edit: Option<Edit<T>>) -> Option<Request<T>> {
    match edit {
        None => None,
        Some(e) => match e.value {
            Some(v) => Some(Request::Commit(v)),
            None => match e.previewed {
                Some(p) => Some(Request::Commit(p)),
                None => None,
            },
        },
    }
}

impl<T: Copy> Session<T> {
    /// An edit starts from the application's value.
    pub fn focus(&mut self)
        ensures
            final(self).focused,
            final(self).edit is None,
    {
        self.focused = true;
        self.edit = None;
    }

    /// The field now holds `text`, which parses to `value`. An input can
    /// arrive without a focus event before it - a value set by an extension
    /// or a test - and it is an edit all the same.
    pub fn input(&mut self, text: String, value: Option<T>) -> (r: Option<Request<T>>)
        ensures
            final(self).focused,
            final(self).edit matches Some(e) && e.text == text && e.value == value && e.previewed == match value {
                Some(v) => Some(v),
                None => match old(self).edit {
                    Some(old_edit) => old_edit.previewed,
                    None => None,
                },
            },
            r == match value {
                Some(v) => Some(Request::Preview(v)),
                None => None::<Request<T>>,
            },
    {
        self.focused = true;
        let previewed = match value {
            Some(v) => Some(v),
            None => match &self.edit {
                Some(edit) => edit.previewed,
                None => None,
            },
        };
        self.edit = Some(Edit { text, value, previewed });
        match value {
            Some(v) => Some(Request::Preview(v)),
            None => None,
        }
    }

    /// Enter: the edit so far becomes one commit, and the field stays focused
    /// on the application's value.
    pub fn commit(&mut self) -> (r: Option<Request<T>>)
        ensures
            final(self).focused == old(self).focused,
            final(self).edit is None,
            r == commit_request(old(self).edit),
    {
        let edit = self.edit.take();
        match edit {
            None => None,
            Some(e) => match e.value {
                Some(v) => Some(Request::Commit(v)),
                None => match e.previewed {
                    Some(p) => Some(Request::Commit(p)),
                    None => None,
                },
            },
        }
    }

    /// Leaving the field commits, and the field shows the application's
    /// value again.
    pub fn blur(&mut self) -> (r: Option<Request<T>>)
        ensures
            !final(self).focused,
            final(self).edit is None,
            r == commit_request(old(self).edit),
    {
        let request = self.commit();
        self.focused = false;
        request
    }

    /// Escape: the draft goes, and a preview is asked to be taken back.
    pub fn escape(&mut self) -> (r: Option<Request<T>>)
        ensures
            final(self).focused == old(self).focused,
            final(self).edit is None,
            r == match old(self).edit {
                Some(e) => if e.previewed is Some {
                    Some(Request::Cancel)
                } else {
                    None
                },
                None => None::<Request<T>>,
            },
    {
        let edit = self.edit.take();
        match edit {
            None => None,
            Some(e) => if e.previewed.is_some() {
                Some(Request::Cancel)
            } else {
                None
            },
        }
    }

    /// A key went down in the field. Keys pressed while an input method is
    /// composing belong to the composition; Enter commits; Escape drops a
    /// draft, and is the field's only while there is one - otherwise it goes
    /// on to the scope, which may close the layer the field sits in. Returns
    /// whether the field took the key, and what it asks of the application.
    pub fn key(&mut self, key: &str, composing: bool) -> (r: (bool, Option<Request<T>>))
        ensures
            if composing || (key@ != "Enter"@ && key@ != "Escape"@) || (key@ == "Escape"@
                && old(self).edit is None) {
                r == (false, None::<Request<T>>) && *final(self) == *old(self)
            } else if key@ == "Enter"@ {
                &&& r == (false, commit_request(old(self).edit))
                &&& final(self).focused == old(self).focused
                &&& final(self).edit is None
            } else {
                &&& r.0
                &&& r.1 == match old(self).edit {
                    Some(e) => if e.previewed is Some {
                        Some(Request::Cancel)
                    } else {
                        None
                    },
                    None => None::<Request<T>>,
                }
                &&& final(self).focused == old(self).focused
                &&& final(self).edit is None
            },
    {
        if composing {
            return (false, None);
        }
        if str_eq(key, "Enter") {
            return (false, self.commit());
        }
        if str_eq(key, "Escape") && self.touched() {
            let request = self.escape();
            return (true, request);
        }
        (false, None)
    }

    /// Whether there is a draft for Escape to drop.
    pub fn touched(&self) -> (r: bool)
        ensures
            r == self.edit is Some,
    {
        self.edit.is_some()
    }

    /// Whether the draft is text that does not parse.
    pub fn invalid(&self) -> (r: bool)
        ensures
            r == (self.edit matches Some(e) && e.value is None),
    {
        match &self.edit {
            Some(edit) => edit.value.is_none(),
            None => false,
        }
    }

    /// What the field shows: the draft while focused and touched, and
    /// otherwise the application's value, which `application` formats only
    /// when it is needed.
    pub fn text<F: FnOnce() -> String>(&self, application: F) -> (r: String)
        requires
            application.requires(()),
        ensures
            match self.edit {
                Some(e) => if self.focused {
                    r@ == e.text@
                } else {
                    application.ensures((), r)
                },
                None => application.ensures((), r),
            },
    {
        match &self.edit {
            Some(edit) => {
                if self.focused {
                    edit.text.clone()
                } else {
                    application()
                }
            },
            None => application(),
        }
    }
}

/// An edit ends in at most one commit: once Enter, a blur or Escape has ended
/// it, ending it again asks for nothing, and a commit only ever carries a
/// value the text parsed to at some point in the edit.
pub proof fn law_an_edit_commits_at_most_once<T>(edit: Option<Edit<T>>)
    ensures
        commit_request::<T>(None) is None,
        commit_request(edit) matches Some(Request::Commit(v)) ==> (edit matches Some(e) && (e.value == Some(v)
            || (e.value is None && e.previewed == Some(v)))),
        !(commit_request(edit) matches Some(Request::Preview(_))),
        !(commit_request(edit) matches Some(Request::Cancel)),
{
}

} // verus!
