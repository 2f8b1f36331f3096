//! How the record of what went wrong is written out: one line per entry for
//! a person, and one JSON object for a tool.
//!
//! The time of an entry is measured by a clock the host keeps, so it arrives
//! here already written, in whole milliseconds. Everything else an entry
//! says is the record's own.

use vstd::prelude::*;
use crate::diagnostics::{kind_name, kind_severity, kind_suggestion, severity_name, ErrorKind, Severity};
use crate::strings::{decimal, push_decimal, push_str};

verus! {

/// One entry of the record, as it is written out.
#[derive(Clone, Debug, PartialEq, Eq)]
pub struct EntryText {
    pub kind: ErrorKind,
    /// When it happened, in whole milliseconds since the page started.
    pub at_ms: String,
    /// The mount scope's name, when one was involved.
    pub scope: Option<String>,
    /// The region's id, when one was involved.
    pub region: Option<u32>,
    /// The asset the entry is about, when one is.
    pub asset: Option<String>,
    /// The form field the entry is about, when one is.
    pub field: Option<&'static str>,
    pub detail: &'static str,
}

/// What the record says about itself before its entries mean anything.
#[derive(Clone, Debug, PartialEq, Eq)]
pub struct RecordHeader {
    /// Which runtime the record belongs to.
    pub runtime: u32,
    /// The build the runtime came from.
    pub build: String,
    /// What the kept entries weigh.
    pub bytes: usize,
    /// How many entries the ceilings cost.
    pub dropped: u64,
    pub recording: bool,
    /// How many entries the switch turned away.
    pub suppressed: u64,
    pub max_entries: usize,
    pub max_bytes: usize,
}

/// `s` in double quotes, or `null` for nothing.
pub open spec fn quoted_or_null(s: Option<Seq<char>>) -> Seq<char> {
    match s {
        Some(s) => "\""@ + s + "\""@,
        None => "null"@,
    }
}

pub open spec fn number_or_null(n: Option<u32>) -> Seq<char> {
    match n {
        Some(n) => decimal(n as nat),
        None => "null"@,
    }
}

pub open spec fn opt_view(s: Option<String>) -> Option<Seq<char>> {
    match s {
        Some(s) => Some(s@),
        None => None,
    }
}

pub open spec fn field_view(s: Option<&'static str>) -> Option<Seq<char>> {
    match s {
        Some(s) => Some(s@),
        None => None,
    }
}

/// One entry as a JSON object.
pub open spec fn entry_json(e: EntryText) -> Seq<char> {
    "{\"kind\":\""@ + kind_name(e.kind) + "\",\"severity\":\""@ + severity_name(kind_severity(e.kind))
        + "\",\"at_ms\":"@ + e.at_ms@ + ",\"scope\":"@ + quoted_or_null(opt_view(e.scope))
        + ",\"region\":"@ + number_or_null(e.region) + ",\"asset\":"@ + quoted_or_null(opt_view(e.asset))
        + ",\"field\":"@ + quoted_or_null(field_view(e.field)) + ",\"detail\":\""@ + e.detail@
        + "\",\"suggestion\":\""@ + kind_suggestion(e.kind) + "\"}"@
}

/// The entries as JSON objects, separated by commas.
pub open spec fn entries_json(es: Seq<EntryText>) -> Seq<char>
    decreases es.len(),
{
    if es.len() == 0 {
        Seq::empty()
    } else if es.len() == 1 {
        entry_json(es[0])
    } else {
        entries_json(es.drop_last()) + ","@ + entry_json(es.last())
    }
}

/// How many of the entries are errors rather than notices.
pub open spec fn error_count(es: Seq<EntryText>) -> nat
    decreases es.len(),
{
    if es.len() == 0 {
        0
    } else {
        error_count(es.drop_last()) + if kind_severity(es.last().kind) == Severity::Error {
            1nat
        } else {
            0nat
        }
    }
}

pub open spec fn bool_text(b: bool) -> Seq<char> {
    if b {
        "true"@
    } else {
        "false"@
    }
}

/// The whole record as one JSON object: what was dropped and turned away
/// comes before any entry.
pub open spec fn record_json(h: RecordHeader, es: Seq<EntryText>) -> Seq<char> {
    "{\"runtime\":"@ + decimal(h.runtime as nat) + ",\"build\":\""@ + h.build@ + "\",\"count\":"@
        + decimal(es.len()) + ",\"errors\":"@ + decimal(error_count(es)) + ",\"bytes\":"@ + decimal(
        h.bytes as nat,
    ) + ",\"dropped\":"@ + decimal(h.dropped as nat) + ",\"recording\":"@ + bool_text(h.recording)
        + ",\"suppressed\":"@ + decimal(h.suppressed as nat) + ",\"max_entries\":"@ + decimal(
        h.max_entries as nat,
    ) + ",\"max_bytes\":"@ + decimal(h.max_bytes as nat) + ",\"entries\":["@ + entries_json(es) + "]}"@
}

/// The header of the record in one line.
pub open spec fn summary_text(h: RecordHeader, es: Seq<EntryText>) -> Seq<char> {
    "runtime "@ + decimal(h.runtime as nat) + " build "@ + h.build@ + ": "@ + decimal(es.len())
        + " entries ("@ + decimal(error_count(es)) + " errors), "@ + decimal(h.bytes as nat) + " bytes, "@
        + decimal(h.dropped as nat) + " dropped"@ + if h.recording {
        Seq::empty()
    } else {
        ", recording off, "@ + decimal(h.suppressed as nat) + " suppressed"@
    }
}

/// One entry as a line a person reads: when, what, where, why, and what to
/// do next.
pub open spec fn line_text(e: EntryText) -> Seq<char> {
    e.at_ms@ + "ms "@ + kind_name(e.kind) + match e.scope {
        Some(s) => " scope="@ + s@,
        None => Seq::empty(),
    } + match e.region {
        Some(r) => " region="@ + decimal(r as nat),
        None => Seq::empty(),
    } + match e.asset {
        Some(a) => " asset="@ + a@,
        None => Seq::empty(),
    } + ": "@ + e.detail@ + "; "@ + kind_suggestion(e.kind)
}

fn push_quoted_or_null(out: &mut String, s: Option<&str>)
    ensures
        final(out)@ == old(out)@ + quoted_or_null(
            match s {
                Some(s) => Some(s@),
                None => None,
            },
        ),
{
    match s {
        Some(s) => {
            push_str(out, "\"");
            push_str(out, s);
            push_str(out, "\"");
        },
        None => push_str(out, "null"),
    }
}

/// The opening of an entry's JSON object, up to its scope.
pub open spec fn entry_json_head(e: EntryText) -> Seq<char> {
    "{\"kind\":\""@ + kind_name(e.kind) + "\",\"severity\":\""@ + severity_name(kind_severity(e.kind))
        + "\",\"at_ms\":"@ + e.at_ms@
}

/// The rest of an entry's JSON object.
pub open spec fn entry_json_tail(e: EntryText) -> Seq<char> {
    ",\"field\":"@ + quoted_or_null(field_view(e.field)) + ",\"detail\":\""@ + e.detail@
        + "\",\"suggestion\":\""@ + kind_suggestion(e.kind) + "\"}"@
}

proof fn lemma_entry_json_parts(e: EntryText)
    ensures
        entry_json(e) == entry_json_head(e) + entry_json_place(e) + entry_json_tail(e),
{
    assert(entry_json(e) =~= entry_json_head(e) + entry_json_place(e) + entry_json_tail(e));
}

fn str_of(s: &Option<String>) -> (r: Option<&str>)
    ensures
        match r {
            Some(t) => Some(t@),
            None => None::<Seq<char>>,
        } == opt_view(*s),
{
    match s {
        Some(s) => Some(s.as_str()),
        None => None,
    }
}

fn push_entry_head(out: &mut String, e: &EntryText)
    ensures
        final(out)@ == old(out)@ + entry_json_head(*e),
{
    let ghost o = out@;
    push_str(out, "{\"kind\":\"");
    push_str(out, e.kind.name());
    push_str(out, "\",\"severity\":\"");
    push_str(out, e.kind.severity().name());
    push_str(out, "\",\"at_ms\":");
    push_str(out, e.at_ms.as_str());
    assert(out@ =~= o + entry_json_head(*e));
}

/// Where an entry happened, as its JSON object says it.
pub open spec fn entry_json_place(e: EntryText) -> Seq<char> {
    ",\"scope\":"@ + quoted_or_null(opt_view(e.scope)) + ",\"region\":"@ + number_or_null(e.region)
        + ",\"asset\":"@ + quoted_or_null(opt_view(e.asset))
}

fn push_entry_place(out: &mut String, e: &EntryText)
    ensures
        final(out)@ == old(out)@ + entry_json_place(*e),
{
    let ghost o = out@;
    push_str(out, ",\"scope\":");
    push_quoted_or_null(out, str_of(&e.scope));
    push_str(out, ",\"region\":");
    match e.region {
        Some(r) => push_decimal(out, r as u64),
        None => push_str(out, "null"),
    }
    push_str(out, ",\"asset\":");
    push_quoted_or_null(out, str_of(&e.asset));
    assert(out@ =~= o + entry_json_place(*e));
}

fn push_entry_tail(out: &mut String, e: &EntryText)
    ensures
        final(out)@ == old(out)@ + entry_json_tail(*e),
{
    let ghost o = out@;
    push_str(out, ",\"field\":");
    push_quoted_or_null(out, e.field);
    push_str(out, ",\"detail\":\"");
    push_str(out, e.detail);
    push_str(out, "\",\"suggestion\":\"");
    push_str(out, e.kind.suggestion());
    push_str(out, "\"}");
    assert(out@ =~= o + entry_json_tail(*e));
}

fn push_entry_json(out: &mut String, e: &EntryText)
    ensures
        final(out)@ == old(out)@ + entry_json(*e),
{
    let ghost o = out@;
    push_entry_head(out, e);
    push_entry_place(out, e);
    push_entry_tail(out, e);
    proof {
        lemma_entry_json_parts(*e);
        assert(out@ =~= o + entry_json(*e));
    }
}

fn errors_in(es: &[EntryText]) -> (r: usize)
    ensures
        r == error_count(es@),
{
    let mut n: usize = 0;
    let mut i: usize = 0;
    while i < es.len()
        invariant
            i <= es@.len(),
            n == error_count(es@.take(i as int)),
            n <= i,
        decreases es@.len() - i,
    {
        assert(es@.take(i + 1).drop_last() =~= es@.take(i as int));
        if es[i].kind.severity() == Severity::Error {
            n = n + 1;
        }
        i = i + 1;
    }
    assert(es@.take(i as int) =~= es@);
    n
}

/// `s` between double quotes.
pub open spec fn quoted(s: Seq<char>) -> Seq<char> {
    "\""@ + s + "\""@
}

/// One member of a JSON object: its name in quotes, a colon, its value.
pub open spec fn json_member(name: Seq<char>, value: Seq<char>) -> Seq<char> {
    quoted(name) + ":"@ + value
}

/// The members of a JSON object, in order, separated by commas.
pub open spec fn json_members(ms: Seq<(Seq<char>, Seq<char>)>) -> Seq<char>
    decreases ms.len(),
{
    if ms.len() == 0 {
        Seq::empty()
    } else if ms.len() == 1 {
        json_member(ms[0].0, ms[0].1)
    } else {
        json_members(ms.drop_last()) + ","@ + json_member(ms.last().0, ms.last().1)
    }
}

/// A JSON object with these members.
pub open spec fn json_object(ms: Seq<(Seq<char>, Seq<char>)>) -> Seq<char> {
    "{"@ + json_members(ms) + "}"@
}

/// JSON values, in order, separated by commas.
pub open spec fn json_items(vs: Seq<Seq<char>>) -> Seq<char>
    decreases vs.len(),
{
    if vs.len() == 0 {
        Seq::empty()
    } else if vs.len() == 1 {
        vs[0]
    } else {
        json_items(vs.drop_last()) + ","@ + vs.last()
    }
}

/// An entry is a JSON object whose members carry, under their own names,
/// the entry's kind, its severity, its time, where it happened, its field,
/// its detail and what to do about it.
#[verifier::spinoff_prover]
#[verifier::rlimit(100)]
pub proof fn law_an_entry_names_each_of_its_parts(e: EntryText)
    ensures
        entry_json(e) == json_object(
            seq![
                ("kind"@, quoted(kind_name(e.kind))),
                ("severity"@, quoted(severity_name(kind_severity(e.kind)))),
                ("at_ms"@, e.at_ms@),
                ("scope"@, quoted_or_null(opt_view(e.scope))),
                ("region"@, number_or_null(e.region)),
                ("asset"@, quoted_or_null(opt_view(e.asset))),
                ("field"@, quoted_or_null(field_view(e.field))),
                ("detail"@, quoted(e.detail@)),
                ("suggestion"@, quoted(kind_suggestion(e.kind))),
            ],
        ),
{
    reveal_strlit("\"");
    reveal_strlit(":");
    reveal_strlit(",");
    reveal_strlit("{");
    reveal_strlit("}");
    reveal_strlit("kind");
    reveal_strlit("severity");
    reveal_strlit("at_ms");
    reveal_strlit("scope");
    reveal_strlit("region");
    reveal_strlit("asset");
    reveal_strlit("field");
    reveal_strlit("detail");
    reveal_strlit("suggestion");
    reveal_strlit("{\"kind\":\"");
    reveal_strlit("\",\"severity\":\"");
    reveal_strlit("\",\"at_ms\":");
    reveal_strlit(",\"scope\":");
    reveal_strlit(",\"region\":");
    reveal_strlit(",\"asset\":");
    reveal_strlit(",\"field\":");
    reveal_strlit(",\"detail\":\"");
    reveal_strlit("\",\"suggestion\":\"");
    reveal_strlit("\"}");
    reveal_with_fuel(json_members, 10);
    let ms = seq![
        ("kind"@, quoted(kind_name(e.kind))),
        ("severity"@, quoted(severity_name(kind_severity(e.kind)))),
        ("at_ms"@, e.at_ms@),
        ("scope"@, quoted_or_null(opt_view(e.scope))),
        ("region"@, number_or_null(e.region)),
        ("asset"@, quoted_or_null(opt_view(e.asset))),
        ("field"@, quoted_or_null(field_view(e.field))),
        ("detail"@, quoted(e.detail@)),
        ("suggestion"@, quoted(kind_suggestion(e.kind))),
    ];
    assert(entry_json(e) =~= json_object(ms));
}

/// The entries of a record, as a JSON array's items: each entry's object,
/// in order.
proof fn lemma_entries_are_items(es: Seq<EntryText>)
    ensures
        entries_json(es) == json_items(es.map_values(|e: EntryText| entry_json(e))),
    decreases es.len(),
{
    let vs = es.map_values(|e: EntryText| entry_json(e));
    if es.len() > 1 {
        lemma_entries_are_items(es.drop_last());
        assert(es.drop_last().map_values(|e: EntryText| entry_json(e)) =~= vs.drop_last());
    }
}

/// The record is a JSON object whose members carry, each under its own
/// name, the runtime, the build, how many entries there are and how many of
/// them are errors, what they weigh, how many were dropped, whether the
/// record is on and how many it turned away, both ceilings, and the entries
/// themselves in order.
#[verifier::spinoff_prover]
#[verifier::rlimit(100)]
pub proof fn law_the_report_names_each_of_its_figures(h: RecordHeader, es: Seq<EntryText>)
    ensures
        record_json(h, es) == json_object(
            seq![
                ("runtime"@, decimal(h.runtime as nat)),
                ("build"@, quoted(h.build@)),
                ("count"@, decimal(es.len())),
                ("errors"@, decimal(error_count(es))),
                ("bytes"@, decimal(h.bytes as nat)),
                ("dropped"@, decimal(h.dropped as nat)),
                ("recording"@, bool_text(h.recording)),
                ("suppressed"@, decimal(h.suppressed as nat)),
                ("max_entries"@, decimal(h.max_entries as nat)),
                ("max_bytes"@, decimal(h.max_bytes as nat)),
                ("entries"@, "["@ + json_items(es.map_values(|e: EntryText| entry_json(e))) + "]"@),
            ],
        ),
{
    lemma_entries_are_items(es);
    reveal_strlit("\"");
    reveal_strlit(":");
    reveal_strlit(",");
    reveal_strlit("{");
    reveal_strlit("}");
    reveal_strlit("[");
    reveal_strlit("]");
    reveal_strlit("runtime");
    reveal_strlit("build");
    reveal_strlit("count");
    reveal_strlit("errors");
    reveal_strlit("bytes");
    reveal_strlit("dropped");
    reveal_strlit("recording");
    reveal_strlit("suppressed");
    reveal_strlit("max_entries");
    reveal_strlit("max_bytes");
    reveal_strlit("entries");
    reveal_strlit("{\"runtime\":");
    reveal_strlit(",\"build\":\"");
    reveal_strlit("\",\"count\":");
    reveal_strlit(",\"errors\":");
    reveal_strlit(",\"bytes\":");
    reveal_strlit(",\"dropped\":");
    reveal_strlit(",\"recording\":");
    reveal_strlit(",\"suppressed\":");
    reveal_strlit(",\"max_entries\":");
    reveal_strlit(",\"max_bytes\":");
    reveal_strlit(",\"entries\":[");
    reveal_strlit("]}");
    reveal_with_fuel(json_members, 12);
    let ms = seq![
        ("runtime"@, decimal(h.runtime as nat)),
        ("build"@, quoted(h.build@)),
        ("count"@, decimal(es.len())),
        ("errors"@, decimal(error_count(es))),
        ("bytes"@, decimal(h.bytes as nat)),
        ("dropped"@, decimal(h.dropped as nat)),
        ("recording"@, bool_text(h.recording)),
        ("suppressed"@, decimal(h.suppressed as nat)),
        ("max_entries"@, decimal(h.max_entries as nat)),
        ("max_bytes"@, decimal(h.max_bytes as nat)),
        ("entries"@, "["@ + json_items(es.map_values(|e: EntryText| entry_json(e))) + "]"@),
    ];
    assert(record_json(h, es) =~= json_object(ms));
}

/// The record as one JSON object, for a tool to read.
pub fn report_json(header: &RecordHeader, entries: &[EntryText]) -> (r: String)
    ensures
        r@ == record_json(*header, entries@),
{
    let mut out = String::new();
    push_str(&mut out, "{\"runtime\":");
    push_decimal(&mut out, header.runtime as u64);
    push_str(&mut out, ",\"build\":\"");
    push_str(&mut out, header.build.as_str());
    push_str(&mut out, "\",\"count\":");
    push_decimal(&mut out, entries.len() as u64);
    push_str(&mut out, ",\"errors\":");
    push_decimal(&mut out, errors_in(entries) as u64);
    push_str(&mut out, ",\"bytes\":");
    push_decimal(&mut out, header.bytes as u64);
    push_str(&mut out, ",\"dropped\":");
    push_decimal(&mut out, header.dropped);
    push_str(&mut out, ",\"recording\":");
    push_str(&mut out, if header.recording {
        "true"
    } else {
        "false"
    });
    push_str(&mut out, ",\"suppressed\":");
    push_decimal(&mut out, header.suppressed);
    push_str(&mut out, ",\"max_entries\":");
    push_decimal(&mut out, header.max_entries as u64);
    push_str(&mut out, ",\"max_bytes\":");
    push_decimal(&mut out, header.max_bytes as u64);
    push_str(&mut out, ",\"entries\":[");
    let ghost head = out@;
    let mut i: usize = 0;
    while i < entries.len()
        invariant
            i <= entries@.len(),
            out@ == head + entries_json(entries@.take(i as int)),
        decreases entries@.len() - i,
    {
        let ghost before = out@;
        if i > 0 {
            push_str(&mut out, ",");
        }
        push_entry_json(&mut out, &entries[i]);
        proof {
            let t = entries@.take(i + 1);
            assert(t.drop_last() =~= entries@.take(i as int));
            if i == 0 {
                assert(entries@.take(0) =~= Seq::<EntryText>::empty());
            }
        }
        i = i + 1;
    }
    assert(entries@.take(i as int) =~= entries@);
    push_str(&mut out, "]}");
    assert(out@ =~= record_json(*header, entries@));
    out
}

/// Phrases joined by a comma and a space.
pub open spec fn joined_phrases(ps: Seq<Seq<char>>) -> Seq<char>
    decreases ps.len(),
{
    if ps.len() == 0 {
        Seq::empty()
    } else if ps.len() == 1 {
        ps[0]
    } else {
        joined_phrases(ps.drop_last()) + ", "@ + ps.last()
    }
}

/// A figure and what it counts, such as `12 dropped`.
pub open spec fn counted(n: nat, what: Seq<char>) -> Seq<char> {
    decimal(n) + " "@ + what
}

/// The one-line summary names the runtime and the build, then says, each
/// figure next to what it counts: how many entries and how many errors,
/// what they weigh, how many were dropped, and, only when the record is
/// off, that it is and how many entries it turned away.
#[verifier::spinoff_prover]
#[verifier::rlimit(50)]
pub proof fn law_the_summary_puts_each_figure_beside_its_name(h: RecordHeader, es: Seq<EntryText>)
    ensures
        summary_text(h, es) == "runtime "@ + decimal(h.runtime as nat) + " build "@ + h.build@ + ": "@
            + joined_phrases(
            seq![
                counted(es.len(), "entries ("@ + counted(error_count(es), "errors)"@)),
                counted(h.bytes as nat, "bytes"@),
                counted(h.dropped as nat, "dropped"@),
            ] + if h.recording {
                Seq::<Seq<char>>::empty()
            } else {
                seq!["recording off"@, counted(h.suppressed as nat, "suppressed"@)]
            },
        ),
{
    reveal_strlit(" ");
    reveal_strlit(", ");
    reveal_strlit("entries (");
    reveal_strlit("errors)");
    reveal_strlit("bytes");
    reveal_strlit("dropped");
    reveal_strlit("recording off");
    reveal_strlit("suppressed");
    reveal_strlit(" entries (");
    reveal_strlit(" errors), ");
    reveal_strlit(" bytes, ");
    reveal_strlit(" dropped");
    reveal_strlit(", recording off, ");
    reveal_strlit(" suppressed");
    let a = counted(es.len(), "entries ("@ + counted(error_count(es), "errors)"@));
    let b = counted(h.bytes as nat, "bytes"@);
    let c = counted(h.dropped as nat, "dropped"@);
    let three = seq![a, b, c];
    assert(joined_phrases(seq![a]) == a);
    assert(seq![a, b].drop_last() =~= seq![a]);
    assert(joined_phrases(seq![a, b]) == a + ", "@ + b);
    assert(three.drop_last() =~= seq![a, b]);
    assert(joined_phrases(three) == a + ", "@ + b + ", "@ + c);
    if h.recording {
        assert(three + Seq::<Seq<char>>::empty() =~= three);
    } else {
        let d = "recording off"@;
        let e = counted(h.suppressed as nat, "suppressed"@);
        let five = three + seq![d, e];
        assert(five.drop_last() =~= three.push(d));
        assert(three.push(d).drop_last() =~= three);
        assert(joined_phrases(three.push(d)) == joined_phrases(three) + ", "@ + d);
        assert(joined_phrases(five) == joined_phrases(three.push(d)) + ", "@ + e);
    }
    let prefix = "runtime "@ + decimal(h.runtime as nat) + " build "@ + h.build@ + ": "@;
    assert(summary_text(h, es) =~= prefix + joined_phrases(
        three + if h.recording {
            Seq::<Seq<char>>::empty()
        } else {
            seq!["recording off"@, counted(h.suppressed as nat, "suppressed"@)]
        },
    ));
}

/// ` name=value` when there is a value, and nothing when there is none.
pub open spec fn labelled(name: Seq<char>, value: Option<Seq<char>>) -> Seq<char> {
    match value {
        Some(v) => " "@ + name + "="@ + v,
        None => Seq::empty(),
    }
}

/// An entry's line gives its time in milliseconds and its kind, then each
/// place it happened under its own label - the scope, the region and the
/// asset, whichever it has - then its detail and what to do about it.
pub proof fn law_a_line_labels_each_place(e: EntryText)
    ensures
        line_text(e) == e.at_ms@ + "ms "@ + kind_name(e.kind) + labelled("scope"@, opt_view(e.scope))
            + labelled(
            "region"@,
            match e.region {
                Some(r) => Some(decimal(r as nat)),
                None => None,
            },
        ) + labelled("asset"@, opt_view(e.asset)) + ": "@ + e.detail@ + "; "@ + kind_suggestion(e.kind),
{
    reveal_strlit(" ");
    reveal_strlit("=");
    reveal_strlit("scope");
    reveal_strlit("region");
    reveal_strlit("asset");
    reveal_strlit(" scope=");
    reveal_strlit(" region=");
    reveal_strlit(" asset=");
    assert(labelled("scope"@, opt_view(e.scope)) =~= match e.scope {
        Some(s) => " scope="@ + s@,
        None => Seq::empty(),
    });
    assert(labelled("region"@, match e.region {
        Some(r) => Some(decimal(r as nat)),
        None => None,
    }) =~= match e.region {
        Some(r) => " region="@ + decimal(r as nat),
        None => Seq::empty(),
    });
    assert(labelled("asset"@, opt_view(e.asset)) =~= match e.asset {
        Some(a) => " asset="@ + a@,
        None => Seq::empty(),
    });
}

/// The record's header in one line, for a person to read.
pub fn summary(header: &RecordHeader, entries: &[EntryText]) -> (r: String)
    ensures
        r@ == summary_text(*header, entries@),
{
    let mut out = String::new();
    push_str(&mut out, "runtime ");
    push_decimal(&mut out, header.runtime as u64);
    push_str(&mut out, " build ");
    push_str(&mut out, header.build.as_str());
    push_str(&mut out, ": ");
    push_decimal(&mut out, entries.len() as u64);
    push_str(&mut out, " entries (");
    push_decimal(&mut out, errors_in(entries) as u64);
    push_str(&mut out, " errors), ");
    push_decimal(&mut out, header.bytes as u64);
    push_str(&mut out, " bytes, ");
    push_decimal(&mut out, header.dropped);
    push_str(&mut out, " dropped");
    if !header.recording {
        push_str(&mut out, ", recording off, ");
        push_decimal(&mut out, header.suppressed);
        push_str(&mut out, " suppressed");
    }
    assert(out@ =~= summary_text(*header, entries@));
    out
}

/// One entry as a line a person reads.
pub fn entry_line(e: &EntryText) -> (r: String)
    ensures
        r@ == line_text(*e),
{
    let mut out = String::new();
    push_str(&mut out, e.at_ms.as_str());
    push_str(&mut out, "ms ");
    push_str(&mut out, e.kind.name());
    let ghost a = out@;
    match &e.scope {
        Some(s) => {
            push_str(&mut out, " scope=");
            push_str(&mut out, s.as_str());
        },
        None => {},
    }
    let ghost b = out@;
    match e.region {
        Some(r) => {
            push_str(&mut out, " region=");
            push_decimal(&mut out, r as u64);
        },
        None => {},
    }
    let ghost c = out@;
    match &e.asset {
        Some(s) => {
            push_str(&mut out, " asset=");
            push_str(&mut out, s.as_str());
        },
        None => {},
    }
    push_str(&mut out, ": ");
    push_str(&mut out, e.detail);
    push_str(&mut out, "; ");
    push_str(&mut out, e.kind.suggestion());
    assert(out@ =~= line_text(*e));
    out
}

} // verus!
