use rustify_ui::diagnostics::{
    asset_failure_detail, refused_capabilities, refused_capability, ErrorKind, Ring, Severity, UiError,
};

const MAX_ENTRIES: usize = 1_000;
const MAX_BYTES: usize = 4 * 1024 * 1024;

#[test]
fn the_fifteen_registered_kinds_are_all_there() {
    assert_eq!(ErrorKind::all().len(), 15);
    let names: Vec<&str> = ErrorKind::all().iter().map(|kind| kind.name()).collect();
    assert_eq!(
        names,
        [
            "InvalidContainer",
            "OccupiedContainer",
            "UnsupportedCapability",
            "AssetLoadFailed",
            "BuildContractMismatch",
            "GpuInitFailed",
            "GpuContextLost",
            "Backpressure",
            "Disposed",
            "RuntimeFatal",
            "UnknownField",
            "UrlOwnerConflict",
            "NavigationRestoreFailed",
            "NavigationBlocked",
            "NavigationBusy",
        ]
    );
    let mut sorted = names.clone();
    sorted.sort_unstable();
    sorted.dedup();
    assert_eq!(sorted.len(), names.len());
    for kind in ErrorKind::all() {
        assert!(!kind.suggestion().trim().is_empty(), "{}", kind.name());
    }
}

#[test]
fn an_answer_to_a_lookup_is_not_a_failure_of_the_runtime() {
    assert_eq!(UiError::NotFound.kind(), None);
    assert_eq!(UiError::Timeout.kind(), None);
    assert_eq!(
        UiError::GpuUnavailable.kind(),
        Some(ErrorKind::GpuInitFailed)
    );
    assert_eq!(UiError::Disposed.kind(), Some(ErrorKind::Disposed));
}

#[test]
fn every_refusal_the_host_can_report_has_words_for_it() {
    assert_eq!(refused_capabilities().len(), 5);
    for detail in refused_capabilities() {
        assert!(detail.starts_with("a region asked"), "{detail}");
        assert!(detail.contains("host page"), "{detail}");
    }
}

#[test]
fn only_the_two_guard_notices_are_informational() {
    let informational: Vec<&str> = ErrorKind::all()
        .iter()
        .filter(|kind| kind.severity() == Severity::Info)
        .map(|kind| kind.name())
        .collect();
    assert_eq!(informational, ["NavigationBlocked", "NavigationBusy"]);
    assert_eq!(Severity::Info.name(), "info");
    assert_eq!(Severity::Error.name(), "error");
}

#[test]
fn a_refusal_code_names_its_capability_and_an_unknown_code_names_nothing() {
    assert_eq!(
        refused_capability(0),
        Some("a region asked to open a URL; only the host page can")
    );
    assert_eq!(
        refused_capability(4),
        Some("a region asked to set the document title; only the host page can")
    );
    assert_eq!(refused_capability(5), None);
    assert_eq!(refused_capability(u32::MAX), None);
}

#[test]
fn every_error_has_words_and_a_lookup_error_has_no_kind() {
    assert_eq!(UiError::NotFound.message(), "no object with that identity");
    assert_eq!(
        UiError::UrlOwnerConflict.kind(),
        Some(ErrorKind::UrlOwnerConflict)
    );
    assert_eq!(
        ErrorKind::Backpressure.suggestion(),
        "run the action again; it did not happen"
    );
    assert_eq!(
        ErrorKind::GpuContextLost.suggestion(),
        "nothing: the region is rebuilt with the current state"
    );
}

#[test]
fn the_count_ceiling_keeps_the_newest_and_counts_what_it_dropped() {
    let mut ring: Ring<usize> = Ring::new(MAX_ENTRIES, MAX_BYTES);
    for round in 0..(MAX_ENTRIES + 25) {
        ring.record(round, 100);
    }
    assert_eq!(ring.len(), MAX_ENTRIES);
    assert_eq!(ring.dropped(), 25);
    assert_eq!(ring.entries().front().unwrap().0, 25);
    assert_eq!(ring.bytes(), MAX_ENTRIES * 100);
}

#[test]
fn the_byte_ceiling_holds_even_when_the_count_would_not() {
    let mut ring: Ring<u32> = Ring::new(MAX_ENTRIES, MAX_BYTES);
    for round in 0..8 {
        ring.record(round, MAX_BYTES / 4 + 200);
    }
    assert!(ring.len() < 8);
    assert!(ring.bytes() <= MAX_BYTES);
    assert!(ring.dropped() > 0);
    assert_eq!(ring.entries().back().unwrap().0, 7);
    assert_eq!(ring.len(), 3);
    assert_eq!(ring.dropped(), 5);
}

#[test]
fn a_ring_that_is_off_keeps_nothing_and_counts_what_it_refused() {
    let mut ring: Ring<u32> = Ring::new(MAX_ENTRIES, MAX_BYTES);
    ring.record(1, 10);
    assert!(ring.is_recording());
    assert!(ring.set_recording(false));
    for round in 0..7 {
        ring.record(round, 10);
    }
    assert_eq!(ring.len(), 1);
    assert_eq!(ring.suppressed(), 7);
    assert_eq!(ring.dropped(), 0);
    assert!(!ring.set_recording(true));
    ring.record(9, 10);
    assert_eq!(ring.len(), 2);
    assert_eq!(ring.suppressed(), 7);
}

#[test]
fn a_ring_that_never_filled_says_nothing_was_dropped() {
    let mut ring: Ring<u32> = Ring::new(MAX_ENTRIES, MAX_BYTES);
    assert!(ring.is_empty());
    ring.record(1, 40);
    assert_eq!(ring.len(), 1);
    assert_eq!(ring.dropped(), 0);
    assert_eq!(ring.bytes(), 40);
}

#[test]
fn an_entry_heavier_than_the_ceiling_is_not_kept_at_all() {
    let mut ring: Ring<u32> = Ring::new(4, 100);
    ring.record(1, 30);
    ring.record(2, 101);
    assert!(ring.is_empty());
    assert_eq!(ring.dropped(), 2);
    assert_eq!(ring.bytes(), 0);
}

#[test]
fn an_asset_that_did_not_arrive_is_described_by_the_reason_the_region_gave() {
    assert_eq!(
        asset_failure_detail("fetch failed with status 404"),
        "a resource the region asked for came back as an error"
    );
    assert_eq!(
        asset_failure_detail("empty response body"),
        "a resource the region asked for came back empty"
    );
    assert_eq!(
        asset_failure_detail("network down"),
        "a resource the region asked for did not arrive"
    );
    assert_eq!(
        asset_failure_detail(""),
        "a resource the region asked for did not arrive"
    );
}
