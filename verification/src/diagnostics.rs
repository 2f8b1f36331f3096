//! What went wrong, said in a form a reader can act on.
//!
//! Every failure the runtime registers has a kind, a name, a severity and a
//! next step. The record of them is bounded twice, by count and by size, and
//! reaching either ceiling is visible: the oldest entries are dropped and
//! counted, so a reader who sees `dropped` above zero knows the record is a
//! tail rather than the whole story.

use vstd::prelude::*;
use std::collections::VecDeque;
use crate::strings::{chars_contain, chars_of, contains_text};

verus! {

/// Errors the SDK reports to the application. Variants map to the failure
/// classes a host can act on; none carries user content.
#[derive(Clone, Copy, Debug, PartialEq, Eq, Structural)]
pub enum UiError {
    /// The container element is missing or not attached to a document.
    InvalidContainer,
    /// Another mount scope already owns the container.
    OccupiedContainer,
    /// The region's canvas could not provide a WebGL2 context. The DOM around
    /// the region keeps working.
    GpuUnavailable,
    /// Nothing with that identity is in the application's current state. The
    /// answer is final: waiting longer would not change it.
    NotFound,
    /// It existed and is gone. Distinguished from `NotFound` because a caller
    /// that held it can tell the difference between a typo and a deletion.
    Disposed,
    /// It was neither found nor ruled out before the caller's deadline.
    Timeout,
    /// Another scope on this page already owns the address bar. One page has
    /// one of those, and a second owner would be two answers to where the user
    /// is.
    UrlOwnerConflict,
}

/// What an error says, in words.
pub open spec fn ui_error_text(e: UiError) -> Seq<char> {
    match e {
        UiError::InvalidContainer => "container is missing or not connected"@,
        UiError::OccupiedContainer => "container is already mounted"@,
        UiError::GpuUnavailable => "no WebGL2 context for the region canvas"@,
        UiError::NotFound => "no object with that identity"@,
        UiError::Disposed => "that object has been deleted"@,
        UiError::Timeout => "no answer before the deadline"@,
        UiError::UrlOwnerConflict => "another scope owns this page's URL"@,
    }
}

/// The failure classes this release registers.
///
/// Every diagnostic entry names one of these. There is no `Other`: a class
/// nobody named is a gap in this list.
#[derive(Clone, Copy, Debug, PartialEq, Eq, Structural)]
pub enum ErrorKind {
    InvalidContainer,
    OccupiedContainer,
    /// The application asked the region for something the embedded contract
    /// refuses: the document title, the URL, fullscreen, opening a link.
    UnsupportedCapability,
    /// A font, an image or a data file did not arrive, or arrived broken.
    AssetLoadFailed,
    /// The JS, the wasm and the generated bridge are not one build.
    BuildContractMismatch,
    /// The canvas could not give the region a WebGL2 context to start with.
    GpuInitFailed,
    /// A running region's context went away. Unlike the one above, this one
    /// is recoverable: the region is rebuilt and the application's state is
    /// projected into it again.
    GpuContextLost,
    /// A scope refused an action because its queue was full. The action did
    /// not run and changed nothing.
    Backpressure,
    /// Something arrived for a scope, a region or a request that has gone.
    Disposed,
    /// The shared wasm trapped. Every mount in this runtime is dead; only a
    /// reload brings them back.
    RuntimeFatal,
    /// A form was told about a field it does not have. Nothing happened, which
    /// is the problem: a misspelled field is a control that never validates
    /// and a form that never becomes dirty, with nothing on screen to say so.
    UnknownField,
    /// A second scope asked to own the page's URL. One address bar cannot have
    /// two owners.
    UrlOwnerConflict,
    /// A guard refused a move through history and the router could not put the
    /// user back where they were.
    NavigationRestoreFailed,
    /// A guard refused a navigation. Informational: the application asked, the
    /// answer was no, and nothing is broken.
    NavigationBlocked,
    /// A navigation was asked for while the router was putting the user back
    /// after a refused one. Informational, and for the same reason.
    NavigationBusy,
}

/// Whether an entry is something that went wrong or something that happened.
///
/// The distinction earns its place at exactly one moment: a report says how
/// many errors a run had, and a guard doing its job twenty times is not twenty
/// errors. Everything the runtime could not do stays an error.
#[derive(Clone, Copy, Debug, PartialEq, Eq, Structural)]
pub enum Severity {
    Error,
    Info,
}

pub open spec fn severity_name(s: Severity) -> Seq<char> {
    match s {
        Severity::Error => "error"@,
        Severity::Info => "info"@,
    }
}

impl Severity {
    pub fn name(self) -> (r: &'static str)
        ensures
            r@ == severity_name(self),
    {
        match self {
            Severity::Error => "error",
            Severity::Info => "info",
        }
    }
}

/// The kinds, in the order they are registered.
pub open spec fn all_kinds() -> Seq<ErrorKind> {
    seq![
        ErrorKind::InvalidContainer,
        ErrorKind::OccupiedContainer,
        ErrorKind::UnsupportedCapability,
        ErrorKind::AssetLoadFailed,
        ErrorKind::BuildContractMismatch,
        ErrorKind::GpuInitFailed,
        ErrorKind::GpuContextLost,
        ErrorKind::Backpressure,
        ErrorKind::Disposed,
        ErrorKind::RuntimeFatal,
        ErrorKind::UnknownField,
        ErrorKind::UrlOwnerConflict,
        ErrorKind::NavigationRestoreFailed,
        ErrorKind::NavigationBlocked,
        ErrorKind::NavigationBusy,
    ]
}

/// The name the diagnostics ring and the host notice both print.
pub open spec fn kind_name(k: ErrorKind) -> Seq<char> {
    match k {
        ErrorKind::InvalidContainer => "InvalidContainer"@,
        ErrorKind::OccupiedContainer => "OccupiedContainer"@,
        ErrorKind::UnsupportedCapability => "UnsupportedCapability"@,
        ErrorKind::AssetLoadFailed => "AssetLoadFailed"@,
        ErrorKind::BuildContractMismatch => "BuildContractMismatch"@,
        ErrorKind::GpuInitFailed => "GpuInitFailed"@,
        ErrorKind::GpuContextLost => "GpuContextLost"@,
        ErrorKind::Backpressure => "Backpressure"@,
        ErrorKind::Disposed => "Disposed"@,
        ErrorKind::RuntimeFatal => "RuntimeFatal"@,
        ErrorKind::UnknownField => "UnknownField"@,
        ErrorKind::UrlOwnerConflict => "UrlOwnerConflict"@,
        ErrorKind::NavigationRestoreFailed => "NavigationRestoreFailed"@,
        ErrorKind::NavigationBlocked => "NavigationBlocked"@,
        ErrorKind::NavigationBusy => "NavigationBusy"@,
    }
}

/// Only the navigation entries that report a guard doing its job are
/// informational; everything else is something the runtime could not do.
pub open spec fn kind_severity(k: ErrorKind) -> Severity {
    match k {
        ErrorKind::NavigationBlocked | ErrorKind::NavigationBusy => Severity::Info,
        _ => Severity::Error,
    }
}

/// What to do next about an entry of a kind.
pub open spec fn kind_suggestion(k: ErrorKind) -> Seq<char> {
    match k {
        ErrorKind::InvalidContainer => "give mount an element that is in the document"@,
        ErrorKind::OccupiedContainer => "dispose the scope that owns the container, or use another"@,
        ErrorKind::UnsupportedCapability => "do it from the host page; a region cannot"@,
        ErrorKind::AssetLoadFailed => "check the asset is deployed beside the build, then retry"@,
        ErrorKind::BuildContractMismatch => "deploy the JS, the wasm and the bridge from one build"@,
        ErrorKind::GpuInitFailed => "use the DOM path; this browser or machine gave no WebGL2"@,
        ErrorKind::GpuContextLost => "nothing: the region is rebuilt with the current state"@,
        ErrorKind::Backpressure => "run the action again; it did not happen"@,
        ErrorKind::Disposed => "drop the handle; what it named is gone"@,
        ErrorKind::RuntimeFatal => "reload the page; unsaved in-memory state is lost"@,
        ErrorKind::UnknownField => "name the field in FormState::new, or correct the spelling"@,
        ErrorKind::UrlOwnerConflict => "mount this scope with url_owner: false; only one scope owns the address bar"@,
        ErrorKind::NavigationRestoreFailed => "nothing: the user is where the browser left them, and the view agrees"@,
        ErrorKind::NavigationBlocked => "nothing: a guard refused, and the application was told"@,
        ErrorKind::NavigationBusy => "ask again once the router has finished putting the user back"@,
    }
}

/// The diagnostic class of an error the application was handed. `NotFound`
/// and `Timeout` have none on purpose: they are answers to a question, not
/// failures of the runtime.
pub open spec fn error_kind(e: UiError) -> Option<ErrorKind> {
    match e {
        UiError::InvalidContainer => Some(ErrorKind::InvalidContainer),
        UiError::OccupiedContainer => Some(ErrorKind::OccupiedContainer),
        UiError::GpuUnavailable => Some(ErrorKind::GpuInitFailed),
        UiError::Disposed => Some(ErrorKind::Disposed),
        UiError::UrlOwnerConflict => Some(ErrorKind::UrlOwnerConflict),
        UiError::NotFound | UiError::Timeout => None,
    }
}

impl UiError {
    /// What the error says, in words.
    pub fn message(self) -> (r: &'static str)
        ensures
            r@ == ui_error_text(self),
    {
        match self {
            UiError::InvalidContainer => "container is missing or not connected",
            UiError::OccupiedContainer => "container is already mounted",
            UiError::GpuUnavailable => "no WebGL2 context for the region canvas",
            UiError::NotFound => "no object with that identity",
            UiError::Disposed => "that object has been deleted",
            UiError::Timeout => "no answer before the deadline",
            UiError::UrlOwnerConflict => "another scope owns this page's URL",
        }
    }

    pub fn kind(self) -> (r: Option<ErrorKind>)
        ensures
            r == error_kind(self),
    {
        match self {
            UiError::InvalidContainer => Some(ErrorKind::InvalidContainer),
            UiError::OccupiedContainer => Some(ErrorKind::OccupiedContainer),
            UiError::GpuUnavailable => Some(ErrorKind::GpuInitFailed),
            UiError::Disposed => Some(ErrorKind::Disposed),
            UiError::UrlOwnerConflict => Some(ErrorKind::UrlOwnerConflict),
            UiError::NotFound | UiError::Timeout => None,
        }
    }
}

impl ErrorKind {
    /// Every registered kind, in order.
    pub fn all() -> (r: [ErrorKind; 15])
        ensures
            r@ == all_kinds(),
    {
        let r = [
            ErrorKind::InvalidContainer,
            ErrorKind::OccupiedContainer,
            ErrorKind::UnsupportedCapability,
            ErrorKind::AssetLoadFailed,
            ErrorKind::BuildContractMismatch,
            ErrorKind::GpuInitFailed,
            ErrorKind::GpuContextLost,
            ErrorKind::Backpressure,
            ErrorKind::Disposed,
            ErrorKind::RuntimeFatal,
            ErrorKind::UnknownField,
            ErrorKind::UrlOwnerConflict,
            ErrorKind::NavigationRestoreFailed,
            ErrorKind::NavigationBlocked,
            ErrorKind::NavigationBusy,
        ];
        assert(r@ =~= all_kinds());
        r
    }

    /// The name the diagnostics ring and the host notice both print.
    pub fn name(self) -> (r: &'static str)
        ensures
            r@ == kind_name(self),
    {
        match self {
            ErrorKind::InvalidContainer => "InvalidContainer",
            ErrorKind::OccupiedContainer => "OccupiedContainer",
            ErrorKind::UnsupportedCapability => "UnsupportedCapability",
            ErrorKind::AssetLoadFailed => "AssetLoadFailed",
            ErrorKind::BuildContractMismatch => "BuildContractMismatch",
            ErrorKind::GpuInitFailed => "GpuInitFailed",
            ErrorKind::GpuContextLost => "GpuContextLost",
            ErrorKind::Backpressure => "Backpressure",
            ErrorKind::Disposed => "Disposed",
            ErrorKind::RuntimeFatal => "RuntimeFatal",
            ErrorKind::UnknownField => "UnknownField",
            ErrorKind::UrlOwnerConflict => "UrlOwnerConflict",
            ErrorKind::NavigationRestoreFailed => "NavigationRestoreFailed",
            ErrorKind::NavigationBlocked => "NavigationBlocked",
            ErrorKind::NavigationBusy => "NavigationBusy",
        }
    }

    /// Whether this is a failure or a thing that happened.
    pub fn severity(self) -> (r: Severity)
        ensures
            r == kind_severity(self),
    {
        match self {
            ErrorKind::NavigationBlocked | ErrorKind::NavigationBusy => Severity::Info,
            _ => Severity::Error,
        }
    }

    /// What to do next. Every kind has one, so no entry can be a dead end.
    pub fn suggestion(self) -> (r: &'static str)
        ensures
            r@ == kind_suggestion(self),
    {
        match self {
            ErrorKind::InvalidContainer => "give mount an element that is in the document",
            ErrorKind::OccupiedContainer => "dispose the scope that owns the container, or use another",
            ErrorKind::UnsupportedCapability => "do it from the host page; a region cannot",
            ErrorKind::AssetLoadFailed => "check the asset is deployed beside the build, then retry",
            ErrorKind::BuildContractMismatch => "deploy the JS, the wasm and the bridge from one build",
            ErrorKind::GpuInitFailed => "use the DOM path; this browser or machine gave no WebGL2",
            ErrorKind::GpuContextLost => "nothing: the region is rebuilt with the current state",
            ErrorKind::Backpressure => "run the action again; it did not happen",
            ErrorKind::Disposed => "drop the handle; what it named is gone",
            ErrorKind::RuntimeFatal => "reload the page; unsaved in-memory state is lost",
            ErrorKind::UnknownField => "name the field in FormState::new, or correct the spelling",
            ErrorKind::UrlOwnerConflict => "mount this scope with url_owner: false; only one scope owns the address bar",
            ErrorKind::NavigationRestoreFailed => "nothing: the user is where the browser left them, and the view agrees",
            ErrorKind::NavigationBlocked => "nothing: a guard refused, and the application was told",
            ErrorKind::NavigationBusy => "ask again once the router has finished putting the user back",
        }
    }
}

/// What the record says about an asset the region asked for and did not
/// get, read from the reason the region gave: the varying part of a reason
/// is a status code, which is not worth a string of its own.
pub open spec fn asset_failure_text(error: Seq<char>) -> Seq<char> {
    if contains_text(error, "status"@) {
        "a resource the region asked for came back as an error"@
    } else if contains_text(error, "empty response body"@) {
        "a resource the region asked for came back empty"@
    } else {
        "a resource the region asked for did not arrive"@
    }
}

/// What the record says about an asset that did not arrive, given the reason
/// the region gave (see [`asset_failure_text`]).
pub fn asset_failure_detail(error: &str) -> (r: &'static str)
    ensures
        r@ == asset_failure_text(error@),
{
    let e = chars_of(error);
    let status = chars_of("status");
    let empty = chars_of("empty response body");
    if chars_contain(e.as_slice(), status.as_slice()) {
        "a resource the region asked for came back as an error"
    } else if chars_contain(e.as_slice(), empty.as_slice()) {
        "a resource the region asked for came back empty"
    } else {
        "a resource the region asked for did not arrive"
    }
}

/// The capabilities an embedded region is refused, in the order the host's
/// codes use.
pub open spec fn refused_capability_texts() -> Seq<Seq<char>> {
    seq![
        "a region asked to open a URL; only the host page can"@,
        "a region asked to change the page's URL; only the host page can"@,
        "a region asked to move through history; only the host page can"@,
        "a region asked for fullscreen; only the host page can"@,
        "a region asked to set the document title; only the host page can"@,
    ]
}

/// The capabilities an embedded region is refused, in the order the host's
/// codes use. The host passes a code rather than a name, so nothing has to be
/// built from a string that crossed the boundary.
pub fn refused_capabilities() -> (r: [&'static str; 5])
    ensures
        r@.map_values(|s: &'static str| s@) == refused_capability_texts(),
{
    let r = [
        "a region asked to open a URL; only the host page can",
        "a region asked to change the page's URL; only the host page can",
        "a region asked to move through history; only the host page can",
        "a region asked for fullscreen; only the host page can",
        "a region asked to set the document title; only the host page can",
    ];
    assert(r@.map_values(|s: &'static str| s@) =~= refused_capability_texts());
    r
}

/// What a refused capability's code stands for; nothing for a code the
/// host should not have sent.
pub fn refused_capability(code: u32) -> (r: Option<&'static str>)
    ensures
        match r {
            Some(t) => code < 5 && t@ == refused_capability_texts()[code as int],
            None => code >= 5,
        },
{
    let all = refused_capabilities();
    if code < 5 {
        let i: usize = code as usize;
        assert(all@.map_values(|s: &'static str| s@)[i as int] == all@[i as int]@);
        Some(all[i])
    } else {
        None
    }
}

// ------------------------------------------------------------------ laws

spec fn name_shape(k: ErrorKind) -> (nat, char) {
    match k {
        ErrorKind::InvalidContainer => (16, 'I'),
        ErrorKind::OccupiedContainer => (17, 'O'),
        ErrorKind::UnsupportedCapability => (21, 'U'),
        ErrorKind::AssetLoadFailed => (15, 'A'),
        ErrorKind::BuildContractMismatch => (21, 'B'),
        ErrorKind::GpuInitFailed => (13, 'G'),
        ErrorKind::GpuContextLost => (14, 'G'),
        ErrorKind::Backpressure => (12, 'B'),
        ErrorKind::Disposed => (8, 'D'),
        ErrorKind::RuntimeFatal => (12, 'R'),
        ErrorKind::UnknownField => (12, 'U'),
        ErrorKind::UrlOwnerConflict => (16, 'U'),
        ErrorKind::NavigationRestoreFailed => (23, 'N'),
        ErrorKind::NavigationBlocked => (17, 'N'),
        ErrorKind::NavigationBusy => (14, 'N'),
    }
}

proof fn lemma_name_shape(k: ErrorKind)
    ensures
        (kind_name(k).len(), kind_name(k)[0]) == name_shape(k),
{
    reveal_strlit("InvalidContainer");
    reveal_strlit("OccupiedContainer");
    reveal_strlit("UnsupportedCapability");
    reveal_strlit("AssetLoadFailed");
    reveal_strlit("BuildContractMismatch");
    reveal_strlit("GpuInitFailed");
    reveal_strlit("GpuContextLost");
    reveal_strlit("Backpressure");
    reveal_strlit("Disposed");
    reveal_strlit("RuntimeFatal");
    reveal_strlit("UnknownField");
    reveal_strlit("UrlOwnerConflict");
    reveal_strlit("NavigationRestoreFailed");
    reveal_strlit("NavigationBlocked");
    reveal_strlit("NavigationBusy");
}

/// The registered kinds are all different and have different names, and
/// every one of them says what to do next.
pub proof fn law_every_kind_is_named_once_and_has_a_next_step(i: int, j: int)
    requires
        0 <= i < all_kinds().len(),
        0 <= j < all_kinds().len(),
    ensures
        i != j ==> kind_name(all_kinds()[i]) != kind_name(all_kinds()[j]),
        kind_suggestion(all_kinds()[i]).len() > 0,
{
    lemma_name_shape(all_kinds()[i]);
    lemma_name_shape(all_kinds()[j]);
    reveal_strlit("give mount an element that is in the document");
    reveal_strlit("dispose the scope that owns the container, or use another");
    reveal_strlit("do it from the host page; a region cannot");
    reveal_strlit("check the asset is deployed beside the build, then retry");
    reveal_strlit("deploy the JS, the wasm and the bridge from one build");
    reveal_strlit("use the DOM path; this browser or machine gave no WebGL2");
    reveal_strlit("nothing: the region is rebuilt with the current state");
    reveal_strlit("run the action again; it did not happen");
    reveal_strlit("drop the handle; what it named is gone");
    reveal_strlit("reload the page; unsaved in-memory state is lost");
    reveal_strlit("name the field in FormState::new, or correct the spelling");
    reveal_strlit("mount this scope with url_owner: false; only one scope owns the address bar");
    reveal_strlit("nothing: the user is where the browser left them, and the view agrees");
    reveal_strlit("nothing: a guard refused, and the application was told");
    reveal_strlit("ask again once the router has finished putting the user back");
}

/// A guard doing its job is not an error: exactly the two navigation notices
/// are informational.
pub proof fn law_only_the_guard_notices_are_informational(k: ErrorKind)
    ensures
        kind_severity(k) == Severity::Info <==> (k == ErrorKind::NavigationBlocked || k
            == ErrorKind::NavigationBusy),
{
}

// ---------------------------------------------------------------- record

/// The sum of the weights of `s`.
pub open spec fn weight_of<T>(s: Seq<(T, usize)>) -> nat
    decreases s.len(),
{
    if s.len() == 0 {
        0
    } else {
        s[0].1 as nat + weight_of(s.drop_first())
    }
}

proof fn lemma_weight_push<T>(s: Seq<(T, usize)>, x: (T, usize))
    ensures
        weight_of(s.push(x)) == weight_of(s) + x.1,
    decreases s.len(),
{
    if s.len() == 0 {
        assert(s.push(x).drop_first() =~= Seq::<(T, usize)>::empty());
        assert(weight_of(s.push(x).drop_first()) == 0);
        assert(s.push(x)[0] == x);
    } else {
        lemma_weight_push(s.drop_first(), x);
        assert(s.push(x).drop_first() =~= s.drop_first().push(x));
        assert(s.push(x)[0] == s[0]);
    }
}

/// How many of the oldest entries of `s` go so that what is left is within
/// both ceilings.
pub open spec fn overflow<T>(s: Seq<(T, usize)>, max_entries: usize, max_bytes: usize) -> nat
    decreases s.len(),
{
    if s.len() > 0 && (s.len() > max_entries || weight_of(s) > max_bytes) {
        1 + overflow(s.drop_first(), max_entries, max_bytes)
    } else {
        0
    }
}

/// A bounded record of entries, each with what it costs to keep.
///
/// Two ceilings, a count and a size, are both enforced by dropping the oldest
/// entries and counting them. Turned off, the record keeps nothing new and
/// counts what it turned away.
#[derive(Debug)]
pub struct Ring<T> {
    entries: VecDeque<(T, usize)>,
    bytes: usize,
    dropped: u64,
    recording: bool,
    suppressed: u64,
    max_entries: usize,
    max_bytes: usize,
}

/// A record as the contracts see it.
pub struct RingView<T> {
    /// What is kept, oldest first, each with its weight.
    pub entries: Seq<(T, usize)>,
    pub dropped: u64,
    pub recording: bool,
    pub suppressed: u64,
    pub max_entries: usize,
    pub max_bytes: usize,
}

impl<T> View for Ring<T> {
    type V = RingView<T>;

    closed spec fn view(&self) -> RingView<T> {
        RingView {
            entries: self.entries@,
            dropped: self.dropped,
            recording: self.recording,
            suppressed: self.suppressed,
            max_entries: self.max_entries,
            max_bytes: self.max_bytes,
        }
    }
}

/// What recording `entry` of weight `weight` does to a record.
pub open spec fn recorded<T>(r: RingView<T>, entry: T, weight: usize) -> RingView<T> {
    if !r.recording {
        RingView { suppressed: (r.suppressed + 1) as u64, ..r }
    } else {
        let all = r.entries.push((entry, weight));
        let k = overflow(all, r.max_entries, r.max_bytes);
        RingView { entries: all.skip(k as int), dropped: (r.dropped + k) as u64, ..r }
    }
}

impl<T> Ring<T> {
    /// The byte count is the weight of what is kept, and both ceilings hold.
    pub closed spec fn wf(&self) -> bool {
        &&& self.bytes == weight_of(self.entries@)
        &&& self.entries@.len() <= self.max_entries
        &&& self.bytes <= self.max_bytes
    }

    /// The weight of what is kept.
    pub closed spec fn weight(&self) -> nat {
        self.bytes as nat
    }

    /// An empty record that is on, with the two ceilings.
    pub fn new(max_entries: usize, max_bytes: usize) -> (r: Ring<T>)
        ensures
            r.wf(),
            r@.entries == Seq::<(T, usize)>::empty(),
            r@.dropped == 0,
            r@.recording,
            r@.suppressed == 0,
            r@.max_entries == max_entries,
            r@.max_bytes == max_bytes,
    {
        Ring {
            entries: VecDeque::new(),
            bytes: 0,
            dropped: 0,
            recording: true,
            suppressed: 0,
            max_entries,
            max_bytes,
        }
    }

    /// Keeps `entry`, which costs `weight` to keep, and drops the oldest
    /// entries until both ceilings hold again. Turned off, it keeps nothing
    /// and counts the entry as turned away.
    pub fn record(&mut self, entry: T, weight: usize)
        requires
            old(self).wf(),
            old(self).weight() + weight <= usize::MAX,
            old(self)@.dropped + old(self)@.entries.len() + 1 <= u64::MAX,
            old(self)@.suppressed < u64::MAX,
        ensures
            final(self).wf(),
            final(self)@ == recorded(old(self)@, entry, weight),
    {
        if !self.recording {
            self.suppressed = self.suppressed + 1;
            return;
        }
        let ghost all = self.entries@.push((entry, weight));
        proof {
            lemma_weight_push(self.entries@, (entry, weight));
        }
        self.entries.push_back((entry, weight));
        self.bytes = self.bytes + weight;
        let ghost start_dropped = self.dropped;
        let ghost mut k: int = 0;
        assert(all.skip(0) =~= all);
        while self.entries.len() > self.max_entries || self.bytes > self.max_bytes
            invariant
                0 <= k <= all.len(),
                self.entries@ == all.skip(k),
                self.bytes == weight_of(self.entries@),
                self.dropped == start_dropped + k,
                start_dropped + all.len() <= u64::MAX,
                self.recording == old(self).recording,
                self.suppressed == old(self).suppressed,
                self.max_entries == old(self).max_entries,
                self.max_bytes == old(self).max_bytes,
                all == old(self)@.entries.push((entry, weight)),
                overflow(all, self.max_entries, self.max_bytes) == k + overflow(all.skip(k), self.max_entries, self.max_bytes),
            decreases self.entries@.len(),
        {
            assert(self.entries@.len() > 0) by {
                if self.entries@.len() == 0 {
                    assert(weight_of(self.entries@) == 0);
                }
            }
            let ghost before = self.entries@;
            let (_, w) = self.entries.pop_front().unwrap();
            assert(self.entries@ =~= before.drop_first());
            assert(all.skip(k + 1) =~= before.drop_first());
            self.bytes = self.bytes - w;
            self.dropped = self.dropped + 1;
            proof {
                k = k + 1;
            }
        }
    }

    pub fn len(&self) -> (r: usize)
        ensures
            r == self@.entries.len(),
    {
        self.entries.len()
    }

    pub fn is_empty(&self) -> (r: bool)
        ensures
            r == (self@.entries.len() == 0),
    {
        self.entries.len() == 0
    }

    /// How many entries the ceilings cost. Above zero, what is kept is the
    /// most recent tail.
    pub fn dropped(&self) -> (r: u64)
        ensures
            r == self@.dropped,
    {
        self.dropped
    }

    /// What the kept entries weigh.
    pub fn bytes(&self) -> (r: usize)
        ensures
            r == self.weight(),
            self.wf() ==> r == weight_of(self@.entries),
    {
        self.bytes
    }

    /// Turns keeping on or off and answers what it was.
    pub fn set_recording(&mut self, on: bool) -> (r: bool)
        requires
            old(self).wf(),
        ensures
            final(self).wf(),
            r == old(self)@.recording,
            final(self)@ == (RingView { recording: on, ..old(self)@ }),
    {
        let was = self.recording;
        self.recording = on;
        was
    }

    pub fn is_recording(&self) -> (r: bool)
        ensures
            r == self@.recording,
    {
        self.recording
    }

    /// How many entries the switch turned away.
    pub fn suppressed(&self) -> (r: u64)
        ensures
            r == self@.suppressed,
    {
        self.suppressed
    }

    /// The kept entries, oldest first, each with its weight.
    pub fn entries(&self) -> (r: &VecDeque<(T, usize)>)
        ensures
            r@ == self@.entries,
    {
        &self.entries
    }
}

/// What a record keeps is always the newest tail of what it was given, within
/// both ceilings; an entry that fits alone is never the one dropped.
pub proof fn law_a_record_keeps_the_newest_within_its_ceilings<T>(r: RingView<T>, entry: T, weight: usize)
    requires
        r.recording,
        r.dropped + r.entries.len() + 1 <= u64::MAX,
    ensures
        ({
            let after = recorded(r, entry, weight);
            let all = r.entries.push((entry, weight));
            &&& after.entries.len() <= r.max_entries
            &&& weight_of(after.entries) <= r.max_bytes
            &&& after.entries == all.skip(all.len() - after.entries.len())
            &&& after.dropped == r.dropped + (all.len() - after.entries.len())
            &&& (r.max_entries >= 1 && weight <= r.max_bytes) ==> after.entries.len() >= 1 && after.entries.last()
                == (entry, weight)
        }),
{
    let all = r.entries.push((entry, weight));
    lemma_overflow(all, r.max_entries, r.max_bytes, weight);
    let k = overflow(all, r.max_entries, r.max_bytes);
    let after = recorded(r, entry, weight);
    assert(after.entries == all.skip(k as int));
    assert(after.entries.len() == all.len() - k);
    if r.max_entries >= 1 && weight <= r.max_bytes {
        assert(after.entries.last() == all.last());
    }
}

proof fn lemma_overflow<T>(s: Seq<(T, usize)>, max_entries: usize, max_bytes: usize, last: usize)
    requires
        s.len() > 0,
        s.last().1 == last,
    ensures
        overflow(s, max_entries, max_bytes) <= s.len(),
        s.skip(overflow(s, max_entries, max_bytes) as int).len() <= max_entries,
        weight_of(s.skip(overflow(s, max_entries, max_bytes) as int)) <= max_bytes,
        (max_entries >= 1 && last <= max_bytes) ==> overflow(s, max_entries, max_bytes) < s.len(),
    decreases s.len(),
{
    let k = overflow(s, max_entries, max_bytes);
    if s.len() > 0 && (s.len() > max_entries || weight_of(s) > max_bytes) {
        if s.len() == 1 {
            let t = s.drop_first();
            assert(t.len() == 0);
            assert(overflow(t, max_entries, max_bytes) == 0);
            assert(s.skip(1) =~= t);
            if max_entries >= 1 && last <= max_bytes {
                assert(weight_of(t) == 0);
                assert(s[0].1 == last);
                assert(weight_of(s) == last);
            }
        } else {
            let t = s.drop_first();
            assert(t.last() == s.last());
            lemma_overflow(t, max_entries, max_bytes, last);
            assert(s.skip(k as int) =~= t.skip(k - 1));
        }
    } else {
        assert(s.skip(0) =~= s);
    }
}

} // verus!
