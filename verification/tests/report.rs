use rustify_ui::diagnostics::ErrorKind;
use rustify_ui::report::{entry_line, report_json, summary, EntryText, RecordHeader};

fn header(runtime: u32) -> RecordHeader {
    RecordHeader {
        runtime,
        build: "build-abc".to_string(),
        bytes: 0,
        dropped: 0,
        recording: true,
        suppressed: 0,
        max_entries: 1000,
        max_bytes: 4 * 1024 * 1024,
    }
}

fn entry(kind: ErrorKind, at_ms: &str) -> EntryText {
    EntryText {
        kind,
        at_ms: at_ms.to_string(),
        scope: None,
        region: None,
        asset: None,
        field: None,
        detail: "a detail the SDK wrote",
    }
}

#[test]
fn a_report_says_what_was_dropped_before_it_says_anything_else() {
    let mut backpressure = entry(ErrorKind::Backpressure, "12");
    backpressure.scope = Some("workbench".to_string());
    backpressure.region = Some(3);
    let json = report_json(&header(4), &[backpressure]);
    assert!(
        json.starts_with("{\"runtime\":4,\"build\":\"build-abc\",\"count\":1,"),
        "{json}"
    );
    assert!(json.contains("\"dropped\":0"), "{json}");
    assert!(json.contains("\"max_entries\":1000"), "{json}");
    assert!(json.contains("\"kind\":\"Backpressure\""), "{json}");
    assert!(json.contains("\"scope\":\"workbench\""), "{json}");
    assert!(json.contains("\"region\":3"), "{json}");
    assert!(
        json.contains("\"suggestion\":\"run the action again; it did not happen\""),
        "{json}"
    );
}

#[test]
fn a_guard_doing_its_job_is_not_an_error() {
    let entries = [
        entry(ErrorKind::NavigationBlocked, "1"),
        entry(ErrorKind::NavigationBusy, "2"),
        entry(ErrorKind::Disposed, "3"),
    ];
    let report = report_json(&header(1), &entries);
    assert!(report.contains("\"count\":3"), "{report}");
    assert!(report.contains("\"errors\":1"), "{report}");
    assert!(report.contains("\"severity\":\"info\""), "{report}");
}

#[test]
fn an_entry_reads_as_a_cause_and_a_next_step() {
    let mut lost = entry(ErrorKind::GpuContextLost, "1234");
    lost.scope = Some("workbench".to_string());
    lost.region = Some(7);
    assert_eq!(
        entry_line(&lost),
        "1234ms GpuContextLost scope=workbench region=7: a detail the SDK wrote; \
         nothing: the region is rebuilt with the current state"
    );
    let mut asset = entry(ErrorKind::AssetLoadFailed, "5");
    asset.detail = "it did not arrive";
    asset.asset = Some("resources/a.ttf".to_string());
    assert_eq!(
        entry_line(&asset),
        "5ms AssetLoadFailed asset=resources/a.ttf: it did not arrive; \
         check the asset is deployed beside the build, then retry"
    );
}

#[test]
fn a_record_that_is_off_says_how_much_it_refused() {
    let mut off = header(5);
    off.recording = false;
    off.suppressed = 7;
    let entries = [entry(ErrorKind::Backpressure, "1")];
    let json = report_json(&off, &entries);
    assert!(json.contains("\"recording\":false"), "{json}");
    assert!(json.contains("\"suppressed\":7"), "{json}");
    assert!(summary(&off, &entries).contains("recording off, 7 suppressed"));
}

#[test]
fn a_summary_names_the_runtime_and_counts_what_it_dropped() {
    let mut h = header(3);
    h.bytes = 40;
    h.dropped = 25;
    let entries = [entry(ErrorKind::RuntimeFatal, "1"), entry(ErrorKind::NavigationBusy, "2")];
    assert_eq!(
        summary(&h, &entries),
        "runtime 3 build build-abc: 2 entries (1 errors), 40 bytes, 25 dropped"
    );
}

#[test]
fn an_empty_record_is_an_empty_list_and_a_field_is_named() {
    let json = report_json(&header(2), &[]);
    assert_eq!(
        json,
        "{\"runtime\":2,\"build\":\"build-abc\",\"count\":0,\"errors\":0,\"bytes\":0,\"dropped\":0,\
         \"recording\":true,\"suppressed\":0,\"max_entries\":1000,\"max_bytes\":4194304,\"entries\":[]}"
    );
    let mut unknown = entry(ErrorKind::UnknownField, "9");
    unknown.field = Some("nickname");
    let json = report_json(&header(2), &[unknown.clone(), unknown]);
    assert!(json.contains("\"field\":\"nickname\""), "{json}");
    assert!(json.contains("},{"), "{json}");
    assert!(json.contains("\"asset\":null"), "{json}");
}
