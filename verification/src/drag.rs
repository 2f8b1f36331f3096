//! Carrying something from one place to another, at most once.
//!
//! The hard part is not the pointer. It is that a target inside a GPU region
//! cannot answer immediately - the region answers on its next pump - so a
//! release can arrive while the answer to "would you take this?" is still in
//! flight, and answers can arrive about targets the pointer has already left.
//! Every rule here is about which answer still counts and how many times a
//! drop can happen, which is once.

use vstd::prelude::*;
use crate::strings::{str_eq, to_owned_string};

verus! {

/// What a target is asked, and what its answer must carry back.
#[derive(Clone, Debug, PartialEq, Eq)]
pub struct Query {
    pub session: u64,
    /// Rises with every question this session asks. An answer carrying an
    /// older one is about a target the pointer has left.
    pub seq: u64,
    pub target: String,
}

/// What releasing turned into.
#[derive(Clone, Debug, PartialEq, Eq)]
pub enum Outcome {
    /// Nothing takes it. The drag is over and nothing happened.
    Nothing,
    /// The named target takes it, once.
    Drop { target: String, payload: String },
    /// A target was asked and has not answered. The answer, when it comes,
    /// decides - see [`Drags::answer`].
    Waiting,
}

/// Where a drag is in its life.
#[derive(Clone, Copy, Debug, PartialEq, Eq, Structural)]
pub enum State {
    Dragging,
    /// Released, and waiting on the answer to the last question.
    Releasing,
    /// Over, one way or the other. Nothing more is accepted.
    Done,
}

#[derive(Clone, Debug)]
struct Session {
    id: u64,
    state: State,
    source: String,
    payload: String,
    /// What the pointer is over now.
    over: Option<String>,
    /// The target that said yes, and the question it was answering.
    confirmed: Option<(String, u64)>,
    /// The question that has not been answered.
    pending: Option<(String, u64)>,
    next_seq: u64,
}

/// The drag in flight, as the contracts see it.
pub struct SessionView {
    pub id: u64,
    pub state: State,
    pub source: Seq<char>,
    pub payload: Seq<char>,
    pub over: Option<Seq<char>>,
    pub confirmed: Option<(Seq<char>, u64)>,
    pub pending: Option<(Seq<char>, u64)>,
    pub next_seq: u64,
}

pub struct DragsView {
    pub current: Option<SessionView>,
    pub next_id: u64,
}

/// What releasing turned into, as the contracts see it.
pub enum OutcomeView {
    Nothing,
    Drop { target: Seq<char>, payload: Seq<char> },
    Waiting,
}

/// A question, as the contracts see it: session, number, target.
pub open spec fn query_view(q: Query) -> (u64, u64, Seq<char>) {
    (q.session, q.seq, q.target@)
}

pub open spec fn outcome_view(o: Outcome) -> OutcomeView {
    match o {
        Outcome::Nothing => OutcomeView::Nothing,
        Outcome::Drop { target, payload } => OutcomeView::Drop { target: target@, payload: payload@ },
        Outcome::Waiting => OutcomeView::Waiting,
    }
}

spec fn mark_view(m: Option<(String, u64)>) -> Option<(Seq<char>, u64)> {
    match m {
        Some((t, n)) => Some((t@, n)),
        None => None,
    }
}

spec fn session_view(s: Session) -> SessionView {
    SessionView {
        id: s.id,
        state: s.state,
        source: s.source@,
        payload: s.payload@,
        over: match s.over {
            Some(t) => Some(t@),
            None => None,
        },
        confirmed: mark_view(s.confirmed),
        pending: mark_view(s.pending),
        next_seq: s.next_seq,
    }
}

// ------------------------------------------------------------ the rules

/// A new drag, numbered one past the last.
pub open spec fn started(d: DragsView, source: Seq<char>, payload: Seq<char>) -> DragsView {
    DragsView {
        current: Some(
            SessionView {
                id: (d.next_id + 1) as u64,
                state: State::Dragging,
                source,
                payload,
                over: None,
                confirmed: None,
                pending: None,
                next_seq: 0,
            },
        ),
        next_id: (d.next_id + 1) as u64,
    }
}

/// The pointer moved onto `target`. Moving off a target withdraws its answer
/// and any question to it; a new target is asked, with the next number.
pub open spec fn moved(d: DragsView, target: Option<Seq<char>>) -> (DragsView, Option<(u64, u64, Seq<char>)>) {
    match d.current {
        None => (d, None),
        Some(s) => if s.state != State::Dragging || s.over == target {
            (d, None)
        } else {
            match target {
                None => (
                    DragsView { current: Some(SessionView { over: None, confirmed: None, pending: None, ..s }), ..d },
                    None,
                ),
                Some(t) => {
                    let n = (s.next_seq + 1) as u64;
                    (
                        DragsView {
                            current: Some(
                                SessionView { over: Some(t), confirmed: None, pending: Some((t, n)), next_seq: n, ..s },
                            ),
                            ..d
                        },
                        Some((s.id, n, t)),
                    )
                },
            }
        },
    }
}

/// The drop, or not: the session is over, and what it confirmed is delivered.
pub open spec fn finished(s: SessionView) -> (SessionView, OutcomeView) {
    (
        SessionView { state: State::Done, pending: None, confirmed: None, ..s },
        match s.confirmed {
            Some((t, _)) => OutcomeView::Drop { target: t, payload: s.payload },
            None => OutcomeView::Nothing,
        },
    )
}

/// A target answered question `seq` of session `id`. Only this session's
/// answer to the question still outstanding counts; it decides a release that
/// was waiting on it.
pub open spec fn answered(d: DragsView, id: u64, seq: u64, accept: bool) -> (DragsView, Option<OutcomeView>) {
    match d.current {
        None => (d, None),
        Some(s) => if s.id != id || s.state == State::Done {
            (d, None)
        } else {
            match s.pending {
                None => (d, None),
                Some((t, p)) => if p != seq {
                    (d, None)
                } else {
                    let s2 = SessionView { pending: None, confirmed: if accept { Some((t, seq)) } else { None }, ..s };
                    if s.state != State::Releasing {
                        (DragsView { current: Some(s2), ..d }, None)
                    } else {
                        (DragsView { current: Some(finished(s2).0), ..d }, Some(finished(s2).1))
                    }
                },
            }
        },
    }
}

/// The pointer went up. With a question outstanding the release waits for
/// its answer; otherwise the drag finishes.
pub open spec fn released(d: DragsView) -> (DragsView, OutcomeView) {
    match d.current {
        None => (d, OutcomeView::Nothing),
        Some(s) => match s.state {
            State::Done => (d, OutcomeView::Nothing),
            State::Releasing => (d, OutcomeView::Waiting),
            State::Dragging => if s.pending is Some {
                (DragsView { current: Some(SessionView { state: State::Releasing, ..s }), ..d }, OutcomeView::Waiting)
            } else {
                (DragsView { current: Some(finished(s).0), ..d }, finished(s).1)
            },
        },
    }
}

/// Escape, a lost pointer, a window that went away. Nothing is delivered.
pub open spec fn cancelled(d: DragsView) -> DragsView {
    match d.current {
        None => d,
        Some(s) => DragsView {
            current: Some(SessionView { state: State::Done, confirmed: None, pending: None, ..s }),
            ..d
        },
    }
}

/// The one drag a scope can have in flight.
#[derive(Clone, Debug)]
pub struct Drags {
    current: Option<Session>,
    next_id: u64,
}

impl View for Drags {
    type V = DragsView;

    closed spec fn view(&self) -> DragsView {
        DragsView {
            current: match self.current {
                Some(s) => Some(session_view(s)),
                None => None,
            },
            next_id: self.next_id,
        }
    }
}

impl Default for Drags {
    fn default() -> (r: Drags)
        ensures
            r@.current is None,
            r@.next_id == 0,
    {
        Drags::new()
    }
}

fn same_target(over: &Option<String>, target: Option<&str>) -> (r: bool)
    ensures
        r == (match over {
            Some(t) => Some(t@),
            None => None,
        } == match target {
            Some(t) => Some(t@),
            None => None,
        }),
{
    match (over, target) {
        (Some(a), Some(b)) => str_eq(a.as_str(), b),
        (None, None) => true,
        _ => false,
    }
}

fn clone_string(s: &String) -> (r: String)
    ensures
        r@ == s@,
{
    to_owned_string(s.as_str())
}

impl Drags {
    pub fn new() -> (r: Drags)
        ensures
            r@.current is None,
            r@.next_id == 0,
    {
        Drags { current: None, next_id: 0 }
    }

    /// Begins a drag, and returns the number that identifies it.
    ///
    /// Starting one while another is in flight cancels the first: a pointer
    /// cannot be in two drags, and the alternative is two sessions racing to
    /// deliver one drop.
    pub fn start(&mut self, source: &str, payload: &str) -> (r: u64)
        requires
            old(self)@.next_id < u64::MAX,
        ensures
            final(self)@ == started(old(self)@, source@, payload@),
            r == final(self)@.next_id,
    {
        self.next_id = self.next_id + 1;
        self.current = Some(
            Session {
                id: self.next_id,
                state: State::Dragging,
                source: to_owned_string(source),
                payload: to_owned_string(payload),
                over: None,
                confirmed: None,
                pending: None,
                next_seq: 0,
            },
        );
        self.next_id
    }

    pub fn session(&self) -> (r: Option<u64>)
        ensures
            r == match self@.current {
                Some(s) => Some(s.id),
                None => None,
            },
    {
        match &self.current {
            Some(s) => Some(s.id),
            None => None,
        }
    }

    pub fn source(&self) -> (r: Option<&str>)
        ensures
            match self@.current {
                Some(s) => r matches Some(t) && t@ == s.source,
                None => r is None,
            },
    {
        match &self.current {
            Some(s) => Some(s.source.as_str()),
            None => None,
        }
    }

    pub fn payload(&self) -> (r: Option<&str>)
        ensures
            match self@.current {
                Some(s) => r matches Some(t) && t@ == s.payload,
                None => r is None,
            },
    {
        match &self.current {
            Some(s) => Some(s.payload.as_str()),
            None => None,
        }
    }

    /// Whether a target has said it would take this.
    pub fn confirmed(&self) -> (r: Option<&str>)
        ensures
            match self@.current {
                Some(s) => match s.confirmed {
                    Some((t, _)) => r matches Some(c) && c@ == t,
                    None => r is None,
                },
                None => r is None,
            },
    {
        match &self.current {
            Some(s) => match &s.confirmed {
                Some((t, _)) => Some(t.as_str()),
                None => None,
            },
            None => None,
        }
    }

    /// Whether a question is outstanding.
    pub fn waiting(&self) -> (r: bool)
        ensures
            r == (self@.current matches Some(s) && s.pending is Some),
    {
        match &self.current {
            Some(s) => s.pending.is_some(),
            None => false,
        }
    }

    /// Whether a drag is in flight.
    pub fn dragging(&self) -> (r: bool)
        ensures
            r == (self@.current matches Some(s) && s.state != State::Done),
    {
        match &self.current {
            Some(s) => s.state != State::Done,
            None => false,
        }
    }

    /// The pointer moved. `target` is what is under it, or `None` for
    /// somewhere that takes nothing.
    ///
    /// Moving off a target withdraws its answer immediately: the thing under
    /// the pointer is what a drop would land on, and a stale yes is how a
    /// drop lands somewhere nobody pointed at. A new target is asked, and the
    /// question supersedes any that was outstanding.
    pub fn over(&mut self, target: Option<&str>) -> (r: Option<Query>)
        requires
            old(self)@.current matches Some(s) ==> s.next_seq < u64::MAX,
        ensures
            ({
                let t = match target {
                    Some(t) => Some(t@),
                    None => None,
                };
                &&& final(self)@ == moved(old(self)@, t).0
                &&& match r {
                    Some(q) => moved(old(self)@, t).1 == Some(query_view(q)),
                    None => moved(old(self)@, t).1 is None,
                }
            }),
    {
        let mut s = match self.current.take() {
            Some(s) => s,
            None => return None,
        };
        if s.state != State::Dragging || same_target(&s.over, target) {
            self.current = Some(s);
            return None;
        }
        s.confirmed = None;
        s.pending = None;
        match target {
            None => {
                s.over = None;
                self.current = Some(s);
                None
            },
            Some(t) => {
                s.over = Some(to_owned_string(t));
                s.next_seq = s.next_seq + 1;
                s.pending = Some((to_owned_string(t), s.next_seq));
                let q = Query { session: s.id, seq: s.next_seq, target: to_owned_string(t) };
                self.current = Some(s);
                Some(q)
            },
        }
    }

    /// A target answered.
    ///
    /// Dropped unless it is this session's answer to the question still
    /// outstanding. The return value is what a release that was waiting has
    /// become, and `None` when none was.
    pub fn answer(&mut self, session_id: u64, seq: u64, accept: bool) -> (r: Option<Outcome>)
        ensures
            final(self)@ == answered(old(self)@, session_id, seq, accept).0,
            match r {
                Some(o) => answered(old(self)@, session_id, seq, accept).1 == Some(outcome_view(o)),
                None => answered(old(self)@, session_id, seq, accept).1 is None,
            },
    {
        let mut s = match self.current.take() {
            Some(s) => s,
            None => return None,
        };
        if s.id != session_id || s.state == State::Done {
            self.current = Some(s);
            return None;
        }
        let (target, pending_seq) = match &s.pending {
            Some((t, n)) => (clone_string(t), *n),
            None => {
                self.current = Some(s);
                return None;
            },
        };
        if pending_seq != seq {
            self.current = Some(s);
            return None;
        }
        s.pending = None;
        s.confirmed = if accept {
            Some((target, seq))
        } else {
            None
        };
        if s.state != State::Releasing {
            self.current = Some(s);
            return None;
        }
        let outcome = Self::finish(&mut s);
        self.current = Some(s);
        Some(outcome)
    }

    /// The pointer went up.
    pub fn release(&mut self) -> (r: Outcome)
        ensures
            final(self)@ == released(old(self)@).0,
            outcome_view(r) == released(old(self)@).1,
    {
        let mut s = match self.current.take() {
            Some(s) => s,
            None => return Outcome::Nothing,
        };
        let outcome = match s.state {
            State::Done => Outcome::Nothing,
            State::Releasing => Outcome::Waiting,
            State::Dragging => {
                if s.pending.is_some() {
                    // A question is outstanding. Its answer decides, and no
                    // earlier one can: dropping now would be dropping on a
                    // target that has not agreed.
                    s.state = State::Releasing;
                    Outcome::Waiting
                } else {
                    Self::finish(&mut s)
                }
            },
        };
        self.current = Some(s);
        outcome
    }

    /// Escape, a lost pointer, a window that went away. Nothing is delivered.
    pub fn cancel(&mut self)
        ensures
            final(self)@ == cancelled(old(self)@),
    {
        if let Some(mut s) = self.current.take() {
            s.state = State::Done;
            s.confirmed = None;
            s.pending = None;
            self.current = Some(s);
        }
    }

    /// The drop, or not, exactly once.
    fn finish(s: &mut Session) -> (r: Outcome)
        ensures
            session_view(*final(s)) == finished(session_view(*old(s))).0,
            outcome_view(r) == finished(session_view(*old(s))).1,
    {
        s.state = State::Done;
        s.pending = None;
        match s.confirmed.take() {
            Some((target, _)) => Outcome::Drop { target, payload: clone_string(&s.payload) },
            None => Outcome::Nothing,
        }
    }
}

// ------------------------------------------------------------------ laws

/// What a session has been told agrees with where the pointer is: an
/// outstanding question and a confirmation are both about the target under
/// the pointer, and a finished session holds neither.
pub open spec fn consistent(d: DragsView) -> bool {
    match d.current {
        None => true,
        Some(s) => {
            &&& s.pending matches Some((t, n)) ==> s.over == Some(t) && n == s.next_seq
            &&& s.confirmed matches Some((t, _)) ==> s.over == Some(t)
            &&& s.state == State::Done ==> s.pending is None && s.confirmed is None
        },
    }
}

/// Every operation keeps a drag consistent.
pub proof fn law_every_operation_keeps_a_drag_consistent(
    d: DragsView,
    source: Seq<char>,
    payload: Seq<char>,
    target: Option<Seq<char>>,
    id: u64,
    seq: u64,
    accept: bool,
)
    requires
        consistent(d),
    ensures
        consistent(started(d, source, payload)),
        consistent(moved(d, target).0),
        consistent(answered(d, id, seq, accept).0),
        consistent(released(d).0),
        consistent(cancelled(d)),
{
}

/// A drop lands only on the target under the pointer, and only on one that
/// said yes to the question it was asked.
pub proof fn law_a_drop_lands_on_the_target_that_agreed(d: DragsView, id: u64, seq: u64, accept: bool)
    requires
        consistent(d),
    ensures
        released(d).1 matches OutcomeView::Drop { target, payload } ==> (d.current matches Some(s) && (s.over
            == Some(target) && (s.confirmed matches Some((c, _)) && (c == target && payload == s.payload)))),
        answered(d, id, seq, accept).1 matches Some(OutcomeView::Drop { target, payload }) ==> (d.current matches Some(
            s,
        ) && (s.over == Some(target) && s.pending == Some((target, seq)) && accept && payload == s.payload)),
{
}

/// A drag drops at most once: whatever delivered a drop left the session
/// over, and once it is over nothing but a new drag changes it and nothing
/// delivers anything.
pub proof fn law_a_drag_drops_at_most_once(d: DragsView, target: Option<Seq<char>>, id: u64, seq: u64, accept: bool)
    ensures
        released(d).1 is Drop ==> (released(d).0.current matches Some(s) && s.state == State::Done),
        answered(d, id, seq, accept).1 matches Some(OutcomeView::Drop { .. }) ==> (answered(d, id, seq, accept).0.current matches Some(s)
            && s.state == State::Done),
        d.current matches Some(s) ==> (s.state == State::Done ==> {
            &&& released(d) == (d, OutcomeView::Nothing)
            &&& answered(d, id, seq, accept) == (d, None::<OutcomeView>)
            &&& moved(d, target) == (d, None::<(u64, u64, Seq<char>)>)
            &&& cancelled(d).current == Some(SessionView { state: State::Done, confirmed: None, pending: None, ..s })
        }),
{
}

} // verus!
