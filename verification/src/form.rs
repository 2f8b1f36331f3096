//! What a form knows that its fields do not.
//!
//! Three things: which validation result is still the current one, whether a
//! submit that arrived during a validation is still the submit the user asked
//! for, and how many times a save can happen when the button is clicked
//! twenty times.
//!
//! This module holds no values. The application holds them; what lives here
//! is the bookkeeping around them: a generation per field, an error per
//! field, what is pending, and whether a submit is waiting on it.

use vstd::prelude::*;
use crate::strings::str_eq;

verus! {

/// How many times a field's value has changed.
///
/// A validation carries the generation it was started for and is ignored if
/// the field has moved on.
#[derive(Clone, Copy, Debug, Default, PartialEq, Eq, PartialOrd, Ord, Structural)]
pub struct Generation(pub u64);

/// Who put an error on a field: a synchronous rule the application ran, or
/// a validation that finished.
#[derive(Clone, Copy, Debug, PartialEq, Eq, Structural)]
enum Source {
    Rule,
    Check,
}

#[derive(Clone, Debug)]
struct Field {
    generation: Generation,
    error: Option<(Source, String)>,
    /// The generation a validation is running for, if one is.
    pending: Option<Generation>,
}

/// One field as the contracts see it.
pub struct FieldView {
    pub generation: u64,
    /// The error shown against the field, if any.
    pub error: Option<Seq<char>>,
    /// Whether that error came from a rule rather than a finished check.
    pub by_rule: bool,
    /// The generation a validation is running for, if one is.
    pub pending: Option<u64>,
}

/// What asking to submit turned into.
#[derive(Clone, Debug, PartialEq, Eq)]
pub enum Submit {
    /// A save is already in flight. Nothing was started.
    Busy,
    /// Something is wrong now. The named field is the first one in field
    /// order.
    Blocked { first_error: &'static str },
    /// A validation has to finish first.
    Waiting,
    /// Save, exactly once per request.
    Save,
}

spec fn field_view(f: Field) -> FieldView {
    FieldView {
        generation: f.generation.0,
        error: match f.error {
            Some(e) => Some(e.1@),
            None => None,
        },
        by_rule: match f.error {
            Some(e) => e.0 == Source::Rule,
            None => false,
        },
        pending: match f.pending {
            Some(g) => Some(g.0),
            None => None,
        },
    }
}

/// A fresh field: generation zero, no error, nothing running.
pub open spec fn fresh_field() -> FieldView {
    FieldView { generation: 0, error: None, by_rule: false, pending: None }
}

/// The current generation of `name`, zero for a field the form does not
/// have.
pub open spec fn generation_in(fields: Map<Seq<char>, FieldView>, name: Seq<char>) -> u64 {
    if fields.contains_key(name) {
        fields[name].generation
    } else {
        0
    }
}

/// The first name in `order` whose field shows an error.
pub open spec fn first_error_in(order: Seq<Seq<char>>, fields: Map<Seq<char>, FieldView>) -> Option<
    Seq<char>,
>
    decreases order.len(),
{
    if order.len() == 0 {
        None
    } else if fields.contains_key(order[0]) && fields[order[0]].error is Some {
        Some(order[0])
    } else {
        first_error_in(order.drop_first(), fields)
    }
}

/// Whether any field has a validation running.
pub open spec fn any_pending(fields: Map<Seq<char>, FieldView>) -> bool {
    exists|n: Seq<char>| fields.contains_key(n) && (#[trigger] fields[n]).pending is Some
}

/// Whether every field a request was made for is still at the generation it
/// was made for.
pub open spec fn request_current(request: Seq<(Seq<char>, u64)>, fields: Map<Seq<char>, FieldView>) -> bool {
    forall|i: int| 0 <= i < request.len() ==> generation_in(fields, (#[trigger] request[i]).0) == request[i].1
}

/// The fields after the rules ran again: the errors the rules put there last
/// time are withdrawn, and those a check reported stay.
pub open spec fn without_rule_errors(fields: Map<Seq<char>, FieldView>) -> Map<Seq<char>, FieldView> {
    fields.map_values(|f: FieldView| clear_rule_error(f))
}

/// A field with a rule's error withdrawn; a check's error stays.
pub open spec fn clear_rule_error(f: FieldView) -> FieldView {
    if f.error is Some && f.by_rule {
        FieldView { error: None, by_rule: false, ..f }
    } else {
        f
    }
}

/// How a validation's answer for `generation` changes the fields: dropped
/// when the field has moved on, otherwise it becomes the field's error and
/// the check it answers is no longer running.
pub open spec fn validated_fields(fields: Map<Seq<char>, FieldView>, name: Seq<char>, generation: u64, error: Option<Seq<char>>) -> Map<Seq<char>, FieldView> {
    if fields.contains_key(name) && fields[name].generation == generation {
        fields.insert(name, FieldView {
            generation,
            error,
            by_rule: false,
            pending: if fields[name].pending == Some(generation) {
                None
            } else {
                fields[name].pending
            },
        })
    } else {
        fields
    }
}

/// The fields after a rule's error is set against `name`, if the form has it.
pub open spec fn with_rule_error(fields: Map<Seq<char>, FieldView>, name: Seq<char>, error: Option<Seq<char>>) -> Map<Seq<char>, FieldView> {
    if fields.contains_key(name) {
        fields.insert(name, FieldView { error, by_rule: error is Some, ..fields[name] })
    } else {
        fields
    }
}

/// The fields after every rule error in `errors` is set, in order.
pub open spec fn with_rule_errors(fields: Map<Seq<char>, FieldView>, errors: Seq<(Seq<char>, Seq<char>)>) -> Map<Seq<char>, FieldView>
    decreases errors.len(),
{
    if errors.len() == 0 {
        fields
    } else {
        with_rule_error(with_rule_errors(fields, errors.drop_last()), errors.last().0, Some(errors.last().1))
    }
}

/// The names in `errors` that the form does not have, in order.
pub open spec fn unknown_in(errors: Seq<(Seq<char>, Seq<char>)>, fields: Map<Seq<char>, FieldView>) -> Seq<Seq<char>>
    decreases errors.len(),
{
    if errors.len() == 0 {
        Seq::empty()
    } else if fields.contains_key(errors.last().0) {
        unknown_in(errors.drop_last(), fields)
    } else {
        unknown_in(errors.drop_last(), fields).push(errors.last().0)
    }
}

proof fn lemma_unknown_in_same_names(errors: Seq<(Seq<char>, Seq<char>)>, a: Map<Seq<char>, FieldView>, b: Map<Seq<char>, FieldView>)
    requires
        forall|n: Seq<char>| a.contains_key(n) <==> b.contains_key(n),
    ensures
        unknown_in(errors, a) == unknown_in(errors, b),
    decreases errors.len(),
{
    if errors.len() > 0 {
        lemma_unknown_in_same_names(errors.drop_last(), a, b);
    }
}

/// A submit outcome as the contracts see it.
pub enum SubmitView {
    Busy,
    Blocked(Seq<char>),
    Waiting,
    Save,
}

pub open spec fn submit_view(s: Submit) -> SubmitView {
    match s {
        Submit::Busy => SubmitView::Busy,
        Submit::Blocked { first_error } => SubmitView::Blocked(first_error@),
        Submit::Waiting => SubmitView::Waiting,
        Submit::Save => SubmitView::Save,
    }
}

/// What a waiting request becomes once a validation has landed: nothing
/// while it is void or a check is still running, otherwise a block on the
/// first error or a save.
pub open spec fn resume_answer(request: Option<Seq<(Seq<char>, u64)>>, fields: Map<Seq<char>, FieldView>, order: Seq<Seq<char>>) -> Option<SubmitView> {
    match request {
        None => None,
        Some(q) => if !request_current(q, fields) || any_pending(fields) {
            None
        } else {
            match first_error_in(order, fields) {
                Some(n) => Some(SubmitView::Blocked(n)),
                None => Some(SubmitView::Save),
            }
        },
    }
}

/// The request left once a validation has landed: it survives only while a
/// check it waits on is still running.
pub open spec fn resume_request(request: Option<Seq<(Seq<char>, u64)>>, fields: Map<Seq<char>, FieldView>) -> Option<Seq<(Seq<char>, u64)>> {
    match request {
        None => None,
        Some(q) => if request_current(q, fields) && any_pending(fields) {
            Some(q)
        } else {
            None
        },
    }
}

/// What asking to submit with the rules' answer `errors` does to a form.
///
/// While a save runs it is refused and nothing changes. Otherwise the rules'
/// earlier errors are withdrawn and their new ones set; then the first
/// field in field order with an error blocks, a running check makes the
/// request wait (bound to every field's current generation), and otherwise
/// the save starts.
pub open spec fn submit_post(old: FormState, new: FormState, errors: Seq<(Seq<char>, Seq<char>)>, r: Submit) -> bool {
    &&& new.wf()
    &&& new.order_view() == old.order_view()
    &&& if old.is_submitting() {
        &&& r == Submit::Busy
        &&& new.field_map() == old.field_map()
        &&& new.unknown_view() == old.unknown_view()
        &&& new.request_view() == old.request_view()
        &&& new.is_submitting()
        &&& new.failure_view() == old.failure_view()
        &&& new.is_dirty() == old.is_dirty()
    } else {
        let f = with_rule_errors(without_rule_errors(old.field_map()), errors);
        &&& new.field_map() == f
        &&& new.unknown_view() == old.unknown_view() + unknown_in(errors, old.field_map())
        &&& new.failure_view() is None
        &&& new.is_dirty() == old.is_dirty()
        &&& match first_error_in(old.order_view(), f) {
            Some(n) => {
                &&& submit_view(r) == SubmitView::Blocked(n)
                &&& new.request_view() is None
                &&& !new.is_submitting()
            },
            None => if any_pending(f) {
                &&& r == Submit::Waiting
                &&& new.request_view() == Some(
                    old.order_view().map_values(|n: Seq<char>| (n, generation_in(f, n))),
                )
                &&& !new.is_submitting()
            } else {
                &&& r == Submit::Save
                &&& new.is_submitting()
                &&& new.request_view() == old.request_view()
            },
        }
    }
}

proof fn lemma_no_error_after_clearing(order: Seq<Seq<char>>, fields: Map<Seq<char>, FieldView>)
    requires
        first_error_in(order, fields) is None,
    ensures
        first_error_in(order, without_rule_errors(fields)) is None,
    decreases order.len(),
{
    if order.len() > 0 {
        lemma_no_error_after_clearing(order.drop_first(), fields);
    }
}

/// Twenty clicks while a save runs are one save: once an ask has started a
/// save, the next ask is refused, whatever the rules say.
pub proof fn law_one_save_per_request(
    a: FormState,
    b: FormState,
    c: FormState,
    first: Seq<(Seq<char>, Seq<char>)>,
    second: Seq<(Seq<char>, Seq<char>)>,
    r1: Submit,
    r2: Submit,
)
    requires
        submit_post(a, b, first, r1),
        submit_post(b, c, second, r2),
        r1 == Submit::Save,
    ensures
        r2 == Submit::Busy,
        c.field_map() == b.field_map(),
        c.is_submitting(),
{
}

/// An answer about a generation the field has moved on from changes
/// nothing: it describes a value that is not on screen.
pub proof fn law_stale_answers_change_nothing(
    fields: Map<Seq<char>, FieldView>,
    name: Seq<char>,
    generation: u64,
    error: Option<Seq<char>>,
)
    requires
        generation != generation_in(fields, name),
    ensures
        validated_fields(fields, name, generation, error) == fields,
{
}

/// Asking again re-runs the rules, so their errors are theirs to withdraw;
/// an error a check reported is about the value itself and stays.
pub proof fn law_rules_withdraw_only_their_own_errors(fields: Map<Seq<char>, FieldView>, name: Seq<char>)
    requires
        fields.contains_key(name),
    ensures
        without_rule_errors(fields).contains_key(name),
        fields[name].by_rule ==> without_rule_errors(fields)[name].error is None,
        !fields[name].by_rule ==> without_rule_errors(fields)[name] == fields[name],
{
}

/// Whether asking would get anywhere is the question asking itself asks:
/// a form that can submit saves when its rules find nothing.
pub proof fn law_can_submit_is_what_submit_decides(a: FormState, b: FormState, r: Submit)
    requires
        !a.is_submitting(),
        !a.validating_spec(),
        a.first_error_spec() is None,
        submit_post(a, b, Seq::empty(), r),
    ensures
        r == Submit::Save,
{
    lemma_no_error_after_clearing(a.order_view(), a.field_map());
    let f = without_rule_errors(a.field_map());
    assert(with_rule_errors(f, Seq::empty()) == f);
    if any_pending(f) {
        let n = choose|n: Seq<char>| f.contains_key(n) && (#[trigger] f[n]).pending is Some;
        assert(a.field_map()[n].pending is Some);
    }
}

/// One operation on a form, as the laws below speak of it.
pub enum FormStep {
    /// `changed(name)`.
    Changed(Seq<char>),
    /// `validating(name)`.
    Validating(Seq<char>),
    /// `set_error(name, error)`.
    SetError(Seq<char>, Option<Seq<char>>),
    /// `validated(name, generation, error)`.
    Validated(Seq<char>, u64, Option<Seq<char>>),
    /// `submit`, with what the rules answered.
    Submit(Seq<(Seq<char>, Seq<char>)>),
    /// `submitted`: `None` for a save that went through, the reason for one
    /// that failed.
    Submitted(Option<Seq<char>>),
}

/// What an operation does to a form's fields, to the failure it shows and to
/// whether it is dirty.
pub open spec fn form_step(a: FormState, b: FormState, s: FormStep) -> bool {
    match s {
        FormStep::Changed(n) => if a.field_map().contains_key(n) {
            &&& a.field_map()[n].generation < u64::MAX
            &&& b.field_map() == a.field_map().insert(
                n,
                FieldView {
                    generation: (a.field_map()[n].generation + 1) as u64,
                    error: None,
                    by_rule: false,
                    pending: None,
                },
            )
            &&& b.is_dirty()
            &&& b.failure_view() is None
        } else {
            &&& b.field_map() == a.field_map()
            &&& b.is_dirty() == a.is_dirty()
            &&& b.failure_view() == a.failure_view()
        },
        FormStep::Validating(n) => {
            &&& b.field_map() == if a.field_map().contains_key(n) {
                a.field_map().insert(n, FieldView { pending: Some(a.field_map()[n].generation), ..a.field_map()[n] })
            } else {
                a.field_map()
            }
            &&& b.is_dirty() == a.is_dirty()
            &&& b.failure_view() == a.failure_view()
        },
        FormStep::SetError(n, e) => {
            &&& b.field_map() == with_rule_error(a.field_map(), n, e)
            &&& b.is_dirty() == a.is_dirty()
            &&& b.failure_view() == a.failure_view()
        },
        FormStep::Validated(n, g, e) => {
            &&& b.field_map() == validated_fields(a.field_map(), n, g, e)
            &&& b.is_dirty() == a.is_dirty()
            &&& b.failure_view() == a.failure_view()
        },
        FormStep::Submit(errors) => if a.is_submitting() {
            &&& b.field_map() == a.field_map()
            &&& b.is_dirty() == a.is_dirty()
            &&& b.failure_view() == a.failure_view()
        } else {
            &&& b.field_map() == with_rule_errors(without_rule_errors(a.field_map()), errors)
            &&& b.is_dirty() == a.is_dirty()
            &&& b.failure_view() is None
        },
        FormStep::Submitted(outcome) => {
            &&& b.field_map() == a.field_map()
            &&& match outcome {
                None => !b.is_dirty() && b.failure_view() is None,
                Some(reason) => b.is_dirty() == a.is_dirty() && b.failure_view() == Some(reason),
            }
        },
    }
}

/// The error the rules answered last for `name`, if they named it.
pub open spec fn last_rule_error(errors: Seq<(Seq<char>, Seq<char>)>, name: Seq<char>) -> Option<Seq<char>>
    decreases errors.len(),
{
    if errors.len() == 0 {
        None
    } else if errors.last().0 == name {
        Some(errors.last().1)
    } else {
        last_rule_error(errors.drop_last(), name)
    }
}

/// The error `name` shows after step `s`: what the step wrote to it, or the
/// one it showed before.
pub open spec fn error_after(a: FormState, s: FormStep, name: Seq<char>) -> Option<Seq<char>> {
    let before = a.field_map()[name];
    match s {
        FormStep::Changed(n) => if n == name { None } else { before.error },
        FormStep::Validating(_) => before.error,
        FormStep::SetError(n, e) => if n == name { e } else { before.error },
        FormStep::Validated(n, g, e) => if n == name && g == before.generation { e } else { before.error },
        FormStep::Submit(errors) => if a.is_submitting() {
            before.error
        } else {
            match last_rule_error(errors, name) {
                Some(e) => Some(e),
                None => if before.by_rule { None } else { before.error },
            }
        },
        FormStep::Submitted(_) => before.error,
    }
}

/// Setting the rules' errors touches no field's generation, running check
/// or presence, and leaves on each field the last error named for it.
proof fn lemma_rule_errors_write_last(fields: Map<Seq<char>, FieldView>, errors: Seq<(Seq<char>, Seq<char>)>, name: Seq<char>)
    ensures
        with_rule_errors(fields, errors).contains_key(name) == fields.contains_key(name),
        fields.contains_key(name) ==> {
            let f = with_rule_errors(fields, errors)[name];
            &&& f.generation == fields[name].generation
            &&& f.pending == fields[name].pending
            &&& f.error == match last_rule_error(errors, name) {
                Some(e) => Some(e),
                None => fields[name].error,
            }
        },
    decreases errors.len(),
{
    if errors.len() > 0 {
        lemma_rule_errors_write_last(fields, errors.drop_last(), name);
    }
}

/// Only a change moves a field's generation, and it moves it up by one:
/// checks, errors, submits and saves leave every generation where it was.
pub proof fn law_only_a_change_moves_a_generation(a: FormState, b: FormState, s: FormStep, name: Seq<char>)
    requires
        form_step(a, b, s),
    ensures
        generation_in(b.field_map(), name) == if s == FormStep::Changed(name) && a.field_map().contains_key(name) {
            generation_in(a.field_map(), name) + 1
        } else {
            generation_in(a.field_map(), name) as int
        },
{
    if let FormStep::Submit(errors) = s {
        if !a.is_submitting() {
            lemma_rule_errors_write_last(without_rule_errors(a.field_map()), errors, name);
        }
    }
}

/// What a field shows is the last thing written to it: a change clears it,
/// `set_error` and a current check's answer write it, a submit withdraws the
/// rules' old errors and writes the ones they give now, and nothing else
/// touches it.
pub proof fn law_an_error_is_the_last_one_written(a: FormState, b: FormState, s: FormStep, name: Seq<char>)
    requires
        form_step(a, b, s),
        a.field_map().contains_key(name),
    ensures
        b.field_map().contains_key(name),
        b.field_map()[name].error == error_after(a, s, name),
{
    if let FormStep::Submit(errors) = s {
        if !a.is_submitting() {
            lemma_rule_errors_write_last(without_rule_errors(a.field_map()), errors, name);
        }
    }
}

/// A failed save is reported until the form is asked again (unless a save is
/// running), a field changes, or a save goes through.
pub proof fn law_a_failure_lasts_until_asked_changed_or_saved(a: FormState, b: FormState, s: FormStep)
    requires
        form_step(a, b, s),
    ensures
        b.failure_view() == match s {
            FormStep::Changed(n) => if a.field_map().contains_key(n) { None } else { a.failure_view() },
            FormStep::Submit(_) => if a.is_submitting() { a.failure_view() } else { None },
            FormStep::Submitted(outcome) => outcome,
            _ => a.failure_view(),
        },
{
}

/// Only a save that went through makes a form clean again; a change to a
/// field it has makes it dirty, and nothing else moves it.
pub proof fn law_only_a_save_makes_a_form_clean(a: FormState, b: FormState, s: FormStep)
    requires
        form_step(a, b, s),
    ensures
        b.is_dirty() == match s {
            FormStep::Changed(n) => a.is_dirty() || a.field_map().contains_key(n),
            FormStep::Submitted(None) => false,
            _ => a.is_dirty(),
        },
{
}

/// The bookkeeping of one form.
pub struct FormState {
    /// In the order a person meets them: "the first error" means the first in
    /// this order.
    order: Vec<&'static str>,
    fields: Vec<(&'static str, Field)>,
    submitting: bool,
    /// The generations a waiting submit was asked for.
    request: Option<Vec<(&'static str, Generation)>>,
    dirty: bool,
    /// What the last save failed with. Cleared by asking again.
    failure: Option<String>,
    /// Names the form was told about and does not have, in the order they
    /// arrived: a misspelled field is recorded rather than ignored.
    unknown: Vec<&'static str>,
    model: Ghost<Map<Seq<char>, FieldView>>,
}

impl FormState {
    /// Every declared field, by name.
    pub closed spec fn field_map(&self) -> Map<Seq<char>, FieldView> {
        self.model@
    }

    /// The fields in the order a person meets them.
    pub closed spec fn order_view(&self) -> Seq<Seq<char>> {
        self.order@.map_values(|n: &'static str| n@)
    }

    pub closed spec fn is_submitting(&self) -> bool {
        self.submitting
    }

    pub closed spec fn is_dirty(&self) -> bool {
        self.dirty
    }

    /// The generations a waiting submit was asked for, if one is waiting.
    pub closed spec fn request_view(&self) -> Option<Seq<(Seq<char>, u64)>> {
        match self.request {
            Some(r) => Some(r@.map_values(|e: (&'static str, Generation)| (e.0@, e.1.0))),
            None => None,
        }
    }

    pub closed spec fn failure_view(&self) -> Option<Seq<char>> {
        match self.failure {
            Some(f) => Some(f@),
            None => None,
        }
    }

    /// The names the form was told about and does not have.
    pub closed spec fn unknown_view(&self) -> Seq<Seq<char>> {
        self.unknown@.map_values(|n: &'static str| n@)
    }

    pub open spec fn first_error_spec(&self) -> Option<Seq<char>> {
        first_error_in(self.order_view(), self.field_map())
    }

    pub open spec fn validating_spec(&self) -> bool {
        any_pending(self.field_map())
    }

    pub closed spec fn wf(&self) -> bool {
        let m = self.model@;
        let f = self.fields@;
        &&& forall|i: int|
            0 <= i < f.len() ==> m.contains_key((#[trigger] f[i]).0@) && m[f[i].0@] == field_view(
                f[i].1,
            )
        &&& forall|n: Seq<char>|
            m.contains_key(n) ==> exists|i: int| 0 <= i < f.len() && (#[trigger] f[i]).0@ == n
        &&& forall|a: int, b: int| 0 <= a < b < f.len() ==> (#[trigger] f[a]).0@ != (#[trigger] f[b]).0@
        &&& forall|n: Seq<char>| m.contains_key(n) <==> self.order_view().contains(n)
    }

    /// The position of `name` among the fields, if the form has it.
    fn find(&self, name: &str) -> (r: Option<usize>)
        requires
            self.wf(),
        ensures
            match r {
                Some(i) => {
                    &&& i < self.fields@.len()
                    &&& self.fields@[i as int].0@ == name@
                    &&& self.field_map().contains_key(name@)
                    &&& self.field_map()[name@] == field_view(self.fields@[i as int].1)
                },
                None => !self.field_map().contains_key(name@),
            },
    {
        let mut i: usize = 0;
        while i < self.fields.len()
            invariant
                self.wf(),
                i <= self.fields@.len(),
                forall|k: int| 0 <= k < i ==> (#[trigger] self.fields@[k]).0@ != name@,
            decreases self.fields@.len() - i,
        {
            if str_eq(self.fields[i].0, name) {
                proof {
                    let f = self.fields@[i as int];
                    assert(self.model@.contains_key(f.0@) && self.model@[f.0@] == field_view(f.1));
                }
                return Some(i);
            }
            i = i + 1;
        }
        proof {
            if self.model@.contains_key(name@) {
                let k = choose|k: int| 0 <= k < self.fields@.len() && (#[trigger] self.fields@[k]).0@ == name@;
            }
        }
        None
    }

    /// Replaces the bookkeeping of the field at `i`.
    fn put(&mut self, i: usize, field: Field)
        requires
            old(self).wf(),
            i < old(self).fields@.len(),
        ensures
            final(self).wf(),
            final(self).field_map() == old(self).field_map().insert(
                old(self).fields@[i as int].0@,
                field_view(field),
            ),
            final(self).fields@.len() == old(self).fields@.len(),
            forall|k: int| 0 <= k < final(self).fields@.len() ==> (#[trigger] final(self).fields@[k]).0 == old(self).fields@[k].0,
            final(self).order == old(self).order,
            final(self).submitting == old(self).submitting,
            final(self).request == old(self).request,
            final(self).dirty == old(self).dirty,
            final(self).failure == old(self).failure,
            final(self).unknown == old(self).unknown,
    {
        let name = self.fields[i].0;
        let ghost old_fields = self.fields@;
        let ghost old_m = self.model@;
        self.model = Ghost(old_m.insert(name@, field_view(field)));
        self.fields.set(i, (name, field));
        proof {
            let f = self.fields@;
            let m = self.model@;
            assert forall|k: int| 0 <= k < f.len() implies m.contains_key((#[trigger] f[k]).0@) && m[f[k].0@]
                == field_view(f[k].1) by {
                if k != i {
                    assert(f[k] == old_fields[k]);
                    if k < i {
                        assert(old_fields[k].0@ != old_fields[i as int].0@);
                    } else {
                        assert(old_fields[i as int].0@ != old_fields[k].0@);
                    }
                }
            }
            assert forall|n: Seq<char>| m.contains_key(n) implies exists|k: int| 0 <= k < f.len() && (#[trigger] f[k]).0@ == n by {
                if n == name@ {
                    assert(f[i as int].0@ == n);
                } else {
                    let k = choose|k: int| 0 <= k < old_fields.len() && (#[trigger] old_fields[k]).0@ == n;
                    assert(f[k].0@ == n);
                }
            }
            assert forall|a: int, b: int| 0 <= a < b < f.len() implies (#[trigger] f[a]).0@ != (#[trigger] f[b]).0@ by {
                assert(f[a].0 == old_fields[a].0 && f[b].0 == old_fields[b].0);
            }
            assert forall|n: Seq<char>| m.contains_key(n) <==> self.order_view().contains(n) by {
                assert(old_m.contains_key(name@));
            }
        }
    }

    /// The names of the fields, in the order a person meets them.
    pub fn fields(&self) -> (r: &[&'static str])
        ensures
            r@.map_values(|n: &'static str| n@) == self.order_view(),
    {
        self.order.as_slice()
    }

    /// The names this form was told about and does not have.
    pub fn unknown_fields(&self) -> (r: &[&'static str])
        ensures
            r@.map_values(|n: &'static str| n@) == self.unknown_view(),
    {
        self.unknown.as_slice()
    }

    /// Records a name the form does not have.
    fn unknown(&mut self, field: &'static str)
        ensures
            final(self).unknown@ == old(self).unknown@.push(field),
            final(self).order == old(self).order,
            final(self).fields == old(self).fields,
            final(self).submitting == old(self).submitting,
            final(self).request == old(self).request,
            final(self).dirty == old(self).dirty,
            final(self).failure == old(self).failure,
            final(self).model == old(self).model,
    {
        self.unknown.push(field);
    }

    /// The application took a new value for this field.
    ///
    /// The field moves on: its error and any validation running for it are
    /// about a value that no longer exists, and a submit waiting on that
    /// validation is waiting for a form the user has since changed.
    pub fn changed(&mut self, field: &'static str)
        requires
            old(self).wf(),
            old(self).field_map().contains_key(field@) ==> old(self).field_map()[field@].generation
                < u64::MAX,
        ensures
            form_step(*old(self), *final(self), FormStep::Changed(field@)),
            final(self).wf(),
            final(self).order_view() == old(self).order_view(),
            final(self).is_submitting() == old(self).is_submitting(),
            if old(self).field_map().contains_key(field@) {
                &&& final(self).field_map() == old(self).field_map().insert(
                    field@,
                    FieldView {
                        generation: (old(self).field_map()[field@].generation + 1) as u64,
                        error: None,
                        by_rule: false,
                        pending: None,
                    },
                )
                &&& final(self).is_dirty()
                &&& final(self).failure_view() is None
                &&& final(self).request_view() is None
                &&& final(self).unknown_view() == old(self).unknown_view()
            } else {
                &&& final(self).field_map() == old(self).field_map()
                &&& final(self).is_dirty() == old(self).is_dirty()
                &&& final(self).failure_view() == old(self).failure_view()
                &&& final(self).request_view() == old(self).request_view()
                &&& final(self).unknown_view() == old(self).unknown_view().push(field@)
            },
    {
        match self.find(field) {
            Some(i) => {
                let generation = Generation(self.fields[i].1.generation.0 + 1);
                self.put(i, Field { generation, error: None, pending: None });
                self.dirty = true;
                self.failure = None;
                self.request = None;
            },
            None => {
                self.unknown(field);
                proof {
                    assert(self.unknown_view() =~= old(self).unknown_view().push(field@));
                }
            },
        }
    }

    /// The generation a validation started now would be answering for; zero
    /// for a field the form does not have.
    pub fn generation(&self, field: &str) -> (r: Generation)
        requires
            self.wf(),
        ensures
            r.0 == generation_in(self.field_map(), field@),
    {
        match self.find(field) {
            Some(i) => self.fields[i].1.generation,
            None => Generation(0),
        }
    }

    /// A validation has been started for this field's current value.
    pub fn validating(&mut self, field: &'static str) -> (r: Generation)
        requires
            old(self).wf(),
        ensures
            form_step(*old(self), *final(self), FormStep::Validating(field@)),
            final(self).wf(),
            final(self).order_view() == old(self).order_view(),
            final(self).is_submitting() == old(self).is_submitting(),
            final(self).is_dirty() == old(self).is_dirty(),
            final(self).failure_view() == old(self).failure_view(),
            final(self).request_view() == old(self).request_view(),
            r.0 == generation_in(old(self).field_map(), field@),
            if old(self).field_map().contains_key(field@) {
                &&& final(self).field_map() == old(self).field_map().insert(
                    field@,
                    FieldView { pending: Some(r.0), ..old(self).field_map()[field@] },
                )
                &&& final(self).unknown_view() == old(self).unknown_view()
            } else {
                &&& final(self).field_map() == old(self).field_map()
                &&& final(self).unknown_view() == old(self).unknown_view().push(field@)
            },
    {
        match self.find(field) {
            Some(i) => {
                let current = &self.fields[i].1;
                let generation = current.generation;
                let error = match &current.error {
                    Some(e) => Some((e.0, e.1.clone())),
                    None => None,
                };
                self.put(i, Field { generation, error, pending: Some(generation) });
                generation
            },
            None => {
                self.unknown(field);
                proof {
                    assert(self.unknown_view() =~= old(self).unknown_view().push(field@));
                }
                Generation(0)
            },
        }
    }

    /// An error the application wants shown against a field, from a rule it
    /// ran itself.
    pub fn set_error(&mut self, field: &'static str, error: Option<String>)
        requires
            old(self).wf(),
        ensures
            form_step(
                *old(self),
                *final(self),
                FormStep::SetError(
                    field@,
                    match error {
                        Some(e) => Some(e@),
                        None => None,
                    },
                ),
            ),
            final(self).wf(),
            final(self).order_view() == old(self).order_view(),
            final(self).is_submitting() == old(self).is_submitting(),
            final(self).is_dirty() == old(self).is_dirty(),
            final(self).failure_view() == old(self).failure_view(),
            final(self).request_view() == old(self).request_view(),
            final(self).field_map() == with_rule_error(
                old(self).field_map(),
                field@,
                match error {
                    Some(e) => Some(e@),
                    None => None,
                },
            ),
            final(self).unknown_view() == if old(self).field_map().contains_key(field@) {
                old(self).unknown_view()
            } else {
                old(self).unknown_view().push(field@)
            },
    {
        match self.find(field) {
            Some(i) => {
                let generation = self.fields[i].1.generation;
                let pending = self.fields[i].1.pending;
                let error = match error {
                    Some(e) => Some((Source::Rule, e)),
                    None => None,
                };
                self.put(i, Field { generation, error, pending });
            },
            None => {
                self.unknown(field);
                proof {
                    assert(self.unknown_view() =~= old(self).unknown_view().push(field@));
                }
            },
        }
    }

    /// The error shown against a field, if any.
    pub fn error(&self, field: &str) -> (r: Option<&str>)
        requires
            self.wf(),
        ensures
            match r {
                Some(e) => self.field_map().contains_key(field@) && self.field_map()[field@].error
                    == Some(e@),
                None => !(self.field_map().contains_key(field@) && self.field_map()[field@].error is Some),
            },
    {
        match self.find(field) {
            Some(i) => match &self.fields[i].1.error {
                Some(e) => Some(e.1.as_str()),
                None => None,
            },
            None => None,
        }
    }

    /// The first field in field order with an error.
    pub fn first_error(&self) -> (r: Option<&'static str>)
        requires
            self.wf(),
        ensures
            match r {
                Some(name) => self.first_error_spec() == Some(name@),
                None => self.first_error_spec() is None,
            },
    {
        let ghost names = self.order_view();
        let mut i: usize = 0;
        proof {
            assert(names.skip(0) =~= names);
        }
        while i < self.order.len()
            invariant
                self.wf(),
                names == self.order_view(),
                i <= self.order@.len(),
                first_error_in(names, self.field_map()) == first_error_in(names.skip(i as int), self.field_map()),
            decreases self.order@.len() - i,
        {
            let name = self.order[i];
            proof {
                assert(names.skip(i as int)[0] == name@);
                assert(names.skip(i as int).drop_first() =~= names.skip(i as int + 1));
            }
            if self.error(name).is_some() {
                return Some(name);
            }
            i = i + 1;
        }
        proof {
            assert(names.skip(i as int) =~= Seq::<Seq<char>>::empty());
        }
        None
    }

    /// Why the last save failed, until something changes or it is asked
    /// again.
    pub fn failure(&self) -> (r: Option<&str>)
        ensures
            match r {
                Some(f) => self.failure_view() == Some(f@),
                None => self.failure_view() is None,
            },
    {
        match &self.failure {
            Some(f) => Some(f.as_str()),
            None => None,
        }
    }

    /// Whether any field has a validation running.
    pub fn is_validating(&self) -> (r: bool)
        requires
            self.wf(),
        ensures
            r == self.validating_spec(),
    {
        let mut i: usize = 0;
        while i < self.fields.len()
            invariant
                self.wf(),
                i <= self.fields@.len(),
                forall|k: int| 0 <= k < i ==> (#[trigger] self.fields@[k]).1.pending is None,
            decreases self.fields@.len() - i,
        {
            if self.fields[i].1.pending.is_some() {
                proof {
                    let n = self.fields@[i as int].0@;
                    assert(self.model@.contains_key(n) && self.model@[n].pending is Some);
                }
                return true;
            }
            i = i + 1;
        }
        proof {
            assert forall|n: Seq<char>| self.model@.contains_key(n) implies (#[trigger] self.model@[n]).pending is None by {
                let k = choose|k: int| 0 <= k < self.fields@.len() && (#[trigger] self.fields@[k]).0@ == n;
            }
        }
        false
    }

    pub fn submitting(&self) -> (r: bool)
        ensures
            r == self.is_submitting(),
    {
        self.submitting
    }

    /// Whether a submit is waiting on a validation.
    pub fn waiting(&self) -> (r: bool)
        ensures
            r == (self.request_view() is Some),
    {
        self.request.is_some()
    }

    pub fn dirty(&self) -> (r: bool)
        ensures
            r == self.is_dirty(),
    {
        self.dirty
    }

    /// Whether asking now would get anywhere: no save is running, no check
    /// is running, and no field shows an error.
    pub fn can_submit(&self) -> (r: bool)
        requires
            self.wf(),
        ensures
            r == (!self.is_submitting() && !self.validating_spec() && self.first_error_spec() is None),
    {
        !self.submitting && !self.is_validating() && self.first_error().is_none()
    }

    /// The save finished.
    pub fn submitted(&mut self, result: Result<(), String>)
        requires
            old(self).wf(),
        ensures
            form_step(
                *old(self),
                *final(self),
                FormStep::Submitted(
                    match result {
                        Ok(()) => None,
                        Err(reason) => Some(reason@),
                    },
                ),
            ),
            final(self).wf(),
            final(self).field_map() == old(self).field_map(),
            final(self).order_view() == old(self).order_view(),
            final(self).request_view() == old(self).request_view(),
            final(self).unknown_view() == old(self).unknown_view(),
            !final(self).is_submitting(),
            match result {
                Ok(()) => !final(self).is_dirty() && final(self).failure_view() is None,
                Err(reason) => final(self).is_dirty() == old(self).is_dirty() && final(self).failure_view()
                    == Some(reason@),
            },
    {
        self.submitting = false;
        match result {
            Ok(()) => {
                self.dirty = false;
                self.failure = None;
            },
            Err(reason) => self.failure = Some(reason),
        }
    }

    /// Whether every field a request was made for is still at the
    /// generation it was made for.
    fn request_matches(&self, request: &Vec<(&'static str, Generation)>) -> (r: bool)
        requires
            self.wf(),
        ensures
            r == request_current(
                request@.map_values(|e: (&'static str, Generation)| (e.0@, e.1.0)),
                self.field_map(),
            ),
    {
        let ghost q = request@.map_values(|e: (&'static str, Generation)| (e.0@, e.1.0));
        let mut i: usize = 0;
        while i < request.len()
            invariant
                self.wf(),
                i <= request@.len(),
                q == request@.map_values(|e: (&'static str, Generation)| (e.0@, e.1.0)),
                forall|k: int| 0 <= k < i ==> generation_in(self.field_map(), (#[trigger] q[k]).0) == q[k].1,
            decreases request@.len() - i,
        {
            let (name, generation) = request[i];
            if self.generation(name).0 != generation.0 {
                proof {
                    assert(q[i as int] == (name@, generation.0));
                }
                return false;
            }
            i = i + 1;
        }
        true
    }

    /// What a waiting request has become, now that a validation has landed.
    fn resume(&mut self) -> (r: Option<Submit>)
        requires
            old(self).wf(),
        ensures
            final(self).wf(),
            final(self).field_map() == old(self).field_map(),
            final(self).order_view() == old(self).order_view(),
            final(self).unknown_view() == old(self).unknown_view(),
            final(self).is_dirty() == old(self).is_dirty(),
            final(self).failure_view() == old(self).failure_view(),
            match r {
                Some(s) => resume_answer(old(self).request_view(), old(self).field_map(), old(self).order_view())
                    == Some(submit_view(s)),
                None => resume_answer(old(self).request_view(), old(self).field_map(), old(self).order_view()) is None,
            },
            final(self).request_view() == resume_request(old(self).request_view(), old(self).field_map()),
            final(self).is_submitting() == (old(self).is_submitting() || resume_answer(
                old(self).request_view(),
                old(self).field_map(),
                old(self).order_view(),
            ) == Some(SubmitView::Save)),
    {
        let current = match &self.request {
            None => {
                return None;
            },
            Some(request) => self.request_matches(request),
        };
        if !current {
            self.request = None;
            return None;
        }
        if self.is_validating() {
            return None;
        }
        self.request = None;
        match self.first_error() {
            Some(first_error) => Some(Submit::Blocked { first_error }),
            None => {
                self.submitting = true;
                Some(Submit::Save)
            },
        }
    }

    /// A validation finished.
    ///
    /// A result for a generation the field has moved on from is dropped: it
    /// describes a value that is not on screen. The return value is what a
    /// submit that was waiting has become, and `None` when none was.
    pub fn validated(&mut self, field: &'static str, generation: Generation, error: Option<String>) -> (r: Option<Submit>)
        requires
            old(self).wf(),
        ensures
            form_step(
                *old(self),
                *final(self),
                FormStep::Validated(
                    field@,
                    generation.0,
                    match error {
                        Some(e) => Some(e@),
                        None => None,
                    },
                ),
            ),
            final(self).wf(),
            final(self).order_view() == old(self).order_view(),
            final(self).is_dirty() == old(self).is_dirty(),
            final(self).failure_view() == old(self).failure_view(),
            final(self).unknown_view() == if old(self).field_map().contains_key(field@) {
                old(self).unknown_view()
            } else {
                old(self).unknown_view().push(field@)
            },
            ({
                let f = validated_fields(
                    old(self).field_map(),
                    field@,
                    generation.0,
                    match error {
                        Some(e) => Some(e@),
                        None => None,
                    },
                );
                if old(self).field_map().contains_key(field@) && old(self).field_map()[field@].generation
                    == generation.0 {
                    &&& final(self).field_map() == f
                    &&& match r {
                        Some(s) => resume_answer(old(self).request_view(), f, old(self).order_view()) == Some(
                            submit_view(s),
                        ),
                        None => resume_answer(old(self).request_view(), f, old(self).order_view()) is None,
                    }
                    &&& final(self).request_view() == resume_request(old(self).request_view(), f)
                    &&& final(self).is_submitting() == (old(self).is_submitting() || resume_answer(
                        old(self).request_view(),
                        f,
                        old(self).order_view(),
                    ) == Some(SubmitView::Save))
                } else {
                    &&& r is None
                    &&& final(self).field_map() == old(self).field_map()
                    &&& final(self).request_view() == old(self).request_view()
                    &&& final(self).is_submitting() == old(self).is_submitting()
                }
            }),
    {
        match self.find(field) {
            None => {
                self.unknown(field);
                proof {
                    assert(self.unknown_view() =~= old(self).unknown_view().push(field@));
                }
                None
            },
            Some(i) => {
                let current = self.fields[i].1.generation;
                if current.0 != generation.0 {
                    return None;
                }
                let pending = match self.fields[i].1.pending {
                    Some(p) => if p.0 == generation.0 {
                        None
                    } else {
                        Some(p)
                    },
                    None => None,
                };
                let error = match error {
                    Some(e) => Some((Source::Check, e)),
                    None => None,
                };
                self.put(i, Field { generation: current, error, pending });
                self.resume()
            },
        }
    }

    /// Withdraws every error a rule put on a field; a check's error stays.
    fn clear_rule_errors(&mut self)
        requires
            old(self).wf(),
        ensures
            final(self).wf(),
            final(self).field_map() == without_rule_errors(old(self).field_map()),
            final(self).order == old(self).order,
            final(self).submitting == old(self).submitting,
            final(self).request == old(self).request,
            final(self).dirty == old(self).dirty,
            final(self).failure == old(self).failure,
            final(self).unknown == old(self).unknown,
    {
        let ghost m0 = self.model@;
        let ghost names = self.fields@.map_values(|e: (&'static str, Field)| e.0);
        let mut i: usize = 0;
        while i < self.fields.len()
            invariant
                self.wf(),
                i <= self.fields@.len(),
                names == self.fields@.map_values(|e: (&'static str, Field)| e.0),
                self.order == old(self).order,
                self.submitting == old(self).submitting,
                self.request == old(self).request,
                self.dirty == old(self).dirty,
                self.failure == old(self).failure,
                self.unknown == old(self).unknown,
                forall|n: Seq<char>| self.model@.contains_key(n) <==> m0.contains_key(n),
                forall|k: int| 0 <= k < i ==> self.model@[(#[trigger] self.fields@[k]).0@] == clear_rule_error(m0[self.fields@[k].0@]),
                forall|k: int| i <= k < self.fields@.len() ==> self.model@[(#[trigger] self.fields@[k]).0@] == m0[self.fields@[k].0@],
            decreases self.fields@.len() - i,
        {
            let is_rule = match &self.fields[i].1.error {
                Some(e) => e.0 == Source::Rule,
                None => false,
            };
            if is_rule {
                let generation = self.fields[i].1.generation;
                let pending = self.fields[i].1.pending;
                let ghost before = self.fields@;
                self.put(i, Field { generation, error: None, pending });
                proof {
                    assert(self.fields@.map_values(|e: (&'static str, Field)| e.0) =~= names);
                    assert forall|k: int| 0 <= k < self.fields@.len() && k != i implies self.model@[(#[trigger] self.fields@[k]).0@]
                        == old(self).model@[self.fields@[k].0@] || true by {}
                    assert forall|k: int| 0 <= k < self.fields@.len() && k != i implies (#[trigger] self.fields@[k]).0@ != before[i as int].0@ by {
                        assert(self.fields@[k].0 == before[k].0);
                        if k < i {
                            assert(before[k].0@ != before[i as int].0@);
                        } else {
                            assert(before[i as int].0@ != before[k].0@);
                        }
                    }
                }
            }
            i = i + 1;
        }
        proof {
            assert forall|n: Seq<char>| self.model@.contains_key(n) implies self.model@[n] == clear_rule_error(m0[n]) by {
                let k = choose|k: int| 0 <= k < self.fields@.len() && (#[trigger] self.fields@[k]).0@ == n;
            }
            assert(self.model@ =~= without_rule_errors(m0));
        }
    }

    /// Asks to submit, with what the application's rules say now.
    ///
    /// `errors` is every synchronous check, including the ones across
    /// fields. While a save runs nothing changes and the answer is `Busy`.
    pub fn submit_with(&mut self, errors: Vec<(&'static str, String)>) -> (r: Submit)
        requires
            old(self).wf(),
        ensures
            form_step(
                *old(self),
                *final(self),
                FormStep::Submit(errors@.map_values(|e: (&'static str, String)| (e.0@, e.1@))),
            ),
            submit_post(*old(self), *final(self), errors@.map_values(|e: (&'static str, String)| (e.0@, e.1@)), r),
    {
        if self.submitting {
            return Submit::Busy;
        }
        self.failure = None;
        self.clear_rule_errors();
        let ghost ev = errors@.map_values(|e: (&'static str, String)| (e.0@, e.1@));
        let ghost f0 = self.model@;
        let ghost u0 = self.unknown_view();
        let mut i: usize = 0;
        proof {
            assert(ev.take(0) =~= Seq::<(Seq<char>, Seq<char>)>::empty());
            assert(u0 + unknown_in(ev.take(0), f0) =~= u0);
        }
        while i < errors.len()
            invariant
                self.wf(),
                i <= errors@.len(),
                ev == errors@.map_values(|e: (&'static str, String)| (e.0@, e.1@)),
                self.order_view() == old(self).order_view(),
                !self.is_submitting(),
                self.request_view() == old(self).request_view(),
                self.is_dirty() == old(self).is_dirty(),
                self.failure_view() is None,
                self.model@ == with_rule_errors(f0, ev.take(i as int)),
                self.unknown_view() == u0 + unknown_in(ev.take(i as int), f0),
                forall|n: Seq<char>| self.model@.contains_key(n) <==> f0.contains_key(n),
            decreases errors@.len() - i,
        {
            let name = errors[i].0;
            let error = errors[i].1.clone();
            self.set_error(name, Some(error));
            proof {
                assert(ev.take(i as int + 1).drop_last() =~= ev.take(i as int));
                assert(ev.take(i as int + 1).last() == (name@, error@));
                assert(self.unknown_view() =~= u0 + unknown_in(ev.take(i as int + 1), f0));
            }
            i = i + 1;
        }
        proof {
            assert(ev.take(i as int) =~= ev);
            assert forall|n: Seq<char>| f0.contains_key(n) <==> old(self).field_map().contains_key(n) by {}
            lemma_unknown_in_same_names(ev, f0, old(self).field_map());
        }
        if let Some(first_error) = self.first_error() {
            self.request = None;
            return Submit::Blocked { first_error };
        }
        if self.is_validating() {
            let mut request: Vec<(&'static str, Generation)> = Vec::new();
            let mut k: usize = 0;
            let ghost order = self.order_view();
            while k < self.order.len()
                invariant
                    self.wf(),
                    order == self.order_view(),
                    k <= self.order@.len(),
                    request@.len() == k,
                    forall|j: int| 0 <= j < k ==> ((#[trigger] request@[j]).0@, request@[j].1.0) == (order[j], generation_in(self.field_map(), order[j])),
                decreases self.order@.len() - k,
            {
                let name = self.order[k];
                let generation = self.generation(name);
                request.push((name, generation));
                proof {
                    assert(order[k as int] == name@);
                }
                k = k + 1;
            }
            proof {
                assert(request@.map_values(|e: (&'static str, Generation)| (e.0@, e.1.0)) =~= order.map_values(
                    |n: Seq<char>| (n, generation_in(self.field_map(), n)),
                ));
            }
            self.request = Some(request);
            return Submit::Waiting;
        }
        self.submitting = true;
        Submit::Save
    }

    /// Asks to submit. `rules` is the application's: every synchronous
    /// check, run here rather than earlier, and not at all while a save
    /// runs.
    pub fn submit<F: FnOnce() -> Vec<(&'static str, String)>>(&mut self, rules: F) -> (r: Submit)
        requires
            old(self).wf(),
            call_requires(rules, ()),
        ensures
            old(self).is_submitting() ==> r == Submit::Busy && *final(self) == *old(self),
            !old(self).is_submitting() ==> exists|errors: Vec<(&'static str, String)>|
                call_ensures(rules, (), errors) && submit_post(
                    *old(self),
                    *final(self),
                    errors@.map_values(|e: (&'static str, String)| (e.0@, e.1@)),
                    r,
                ) && form_step(
                    *old(self),
                    *final(self),
                    FormStep::Submit(errors@.map_values(|e: (&'static str, String)| (e.0@, e.1@))),
                ),
    {
        if self.submitting {
            return Submit::Busy;
        }
        let errors = rules();
        self.submit_with(errors)
    }

    /// A form with these fields, all fresh.
    pub fn new(fields: &[&'static str]) -> (s: Self)
        ensures
            s.wf(),
            s.order_view() == fields@.map_values(|n: &'static str| n@),
            forall|n: Seq<char>| s.field_map().contains_key(n) <==> s.order_view().contains(n),
            forall|n: Seq<char>| s.field_map().contains_key(n) ==> s.field_map()[n] == fresh_field(),
            !s.is_submitting(),
            !s.is_dirty(),
            s.request_view() is None,
            s.failure_view() is None,
            s.unknown_view().len() == 0,
    {
        let mut entries: Vec<(&'static str, Field)> = Vec::new();
        let mut order: Vec<&'static str> = Vec::new();
        let ghost mut m: Map<Seq<char>, FieldView> = Map::empty();
        let mut i: usize = 0;
        while i < fields.len()
            invariant
                i <= fields@.len(),
                order@ == fields@.subrange(0, i as int),
                forall|k: int|
                    0 <= k < entries@.len() ==> m.contains_key((#[trigger] entries@[k]).0@) && m[entries@[k].0@]
                        == field_view(entries@[k].1),
                forall|n: Seq<char>|
                    m.contains_key(n) ==> exists|k: int| 0 <= k < entries@.len() && (#[trigger] entries@[k]).0@ == n,
                forall|a: int, b: int|
                    0 <= a < b < entries@.len() ==> (#[trigger] entries@[a]).0@ != (#[trigger] entries@[b]).0@,
                forall|n: Seq<char>|
                    m.contains_key(n) <==> order@.map_values(|x: &'static str| x@).contains(n),
                forall|n: Seq<char>| m.contains_key(n) ==> m[n] == fresh_field(),
            decreases fields@.len() - i,
        {
            let name = fields[i];
            let mut seen = false;
            let mut k: usize = 0;
            while k < entries.len()
                invariant
                    k <= entries@.len(),
                    seen ==> exists|j: int| 0 <= j < entries@.len() && (#[trigger] entries@[j]).0@ == name@,
                    !seen ==> forall|j: int| 0 <= j < k ==> (#[trigger] entries@[j]).0@ != name@,
                decreases entries@.len() - k,
            {
                if str_eq(entries[k].0, name) {
                    seen = true;
                }
                k = k + 1;
            }
            let ghost before = order@;
            order.push(name);
            proof {
                let mv = order@.map_values(|x: &'static str| x@);
                let bv = before.map_values(|x: &'static str| x@);
                assert(mv =~= bv.push(name@));
                assert forall|n: Seq<char>| mv.contains(n) <==> bv.contains(n) || n == name@ by {
                    if mv.contains(n) {
                        let j = choose|j: int| 0 <= j < mv.len() && mv[j] == n;
                        if j < bv.len() {
                            assert(bv[j] == n);
                        }
                    }
                    if bv.contains(n) {
                        let j = choose|j: int| 0 <= j < bv.len() && bv[j] == n;
                        assert(mv[j] == n);
                    }
                    if n == name@ {
                        assert(mv[mv.len() - 1] == n);
                    }
                }
            }
            if !seen {
                let field = Field { generation: Generation(0), error: None, pending: None };
                let ghost old_entries = entries@;
                let ghost old_m = m;
                proof {
                    m = m.insert(name@, field_view(field));
                }
                entries.push((name, field));
                proof {
                    assert forall|n: Seq<char>| m.contains_key(n) implies exists|k: int|
                        0 <= k < entries@.len() && (#[trigger] entries@[k]).0@ == n by {
                        if n == name@ {
                            assert(entries@[entries@.len() - 1].0@ == n);
                        } else {
                            assert(old_m.contains_key(n));
                            let k = choose|k: int| 0 <= k < old_entries.len() && (#[trigger] old_entries[k]).0@ == n;
                            assert(entries@[k] == old_entries[k]);
                        }
                    }
                    assert forall|k: int| 0 <= k < entries@.len() implies m.contains_key((#[trigger] entries@[k]).0@)
                        && m[entries@[k].0@] == field_view(entries@[k].1) by {
                        if k < old_entries.len() {
                            assert(entries@[k] == old_entries[k]);
                            assert(old_entries[k].0@ != name@);
                        }
                    }
                    assert forall|a: int, b: int| 0 <= a < b < entries@.len() implies (#[trigger] entries@[a]).0@ != (#[trigger] entries@[b]).0@ by {
                        if b == entries@.len() - 1 {
                            assert(entries@[a] == old_entries[a]);
                        } else {
                            assert(entries@[a] == old_entries[a] && entries@[b] == old_entries[b]);
                        }
                    }
                }
            } else {
                proof {
                    let j = choose|j: int| 0 <= j < entries@.len() && (#[trigger] entries@[j]).0@ == name@;
                    assert(m.contains_key(entries@[j].0@));
                }
            }
            i = i + 1;
            proof {
                assert(order@ =~= fields@.subrange(0, i as int));
            }
        }
        proof {
            assert(fields@.subrange(0, i as int) =~= fields@);
        }
        FormState {
            order,
            fields: entries,
            submitting: false,
            request: None,
            dirty: false,
            failure: None,
            unknown: Vec::new(),
            model: Ghost(m),
        }
    }
}

} // verus!
