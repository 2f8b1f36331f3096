use rustify_ui::files::{Import, Limits, Refusal};

const JSON: Limits = Limits {
    max_bytes: 1 << 20,
    kinds: &[".json"],
};

#[test]
fn a_file_that_fits_and_is_the_right_kind_is_read() {
    assert_eq!(JSON.check("objects.json", 4_096), Ok(()));
    assert_eq!(JSON.check("OBJECTS.JSON", 4_096), Ok(()));
}

#[test]
fn size_is_decided_before_kind_so_a_huge_file_is_never_read() {
    assert_eq!(
        JSON.check("objects.bin", 8 << 20),
        Err(Refusal::TooLarge {
            bytes: 8 << 20,
            limit: 1 << 20
        })
    );
    assert!(JSON.check("objects.json", (1 << 20) + 1).is_err());
    assert_eq!(JSON.check("objects.json", 1 << 20), Ok(()));
}

#[test]
fn a_kind_we_do_not_read_is_refused_with_the_kinds_we_do() {
    assert_eq!(
        JSON.check("objects.exe", 10),
        Err(Refusal::WrongKind {
            allowed: &[".json"]
        })
    );
    assert_eq!(
        Refusal::WrongKind {
            allowed: &[".json"]
        }
        .message(),
        "we read .json"
    );
    assert!(JSON.check("json.exe", 10).is_err());
}

#[test]
fn an_import_with_no_kinds_takes_any_name() {
    let anything = Limits {
        max_bytes: 16,
        kinds: &[],
    };
    assert_eq!(anything.check("whatever", 16), Ok(()));
    assert_eq!(anything.accept_attribute(), "");
}

#[test]
fn the_picker_offers_exactly_what_the_check_would_take() {
    let limits = Limits {
        max_bytes: 1,
        kinds: &[".json", ".txt"],
    };
    assert_eq!(limits.accept_attribute(), ".json,.txt");
}

#[test]
fn only_a_loaded_import_carries_bytes() {
    let loaded = Import::Loaded {
        name: "a.json".into(),
        bytes: vec![1, 2, 3],
    };
    assert_eq!(loaded.loaded(), Some(("a.json", [1u8, 2, 3].as_slice())));
    assert_eq!(Import::Aborted.loaded(), None);
    assert_eq!(
        Import::Refused {
            name: "a.exe".into(),
            why: Refusal::WrongKind {
                allowed: &[".json"]
            },
        }
        .loaded(),
        None
    );
}

#[test]
fn a_refusal_says_what_was_wrong_with_the_file() {
    assert_eq!(
        Refusal::TooLarge {
            bytes: 2_048,
            limit: 1_024
        }
        .message(),
        "2048 bytes, and the limit is 1024"
    );
    assert_eq!(Refusal::Unreadable.message(), "the file could not be read");
}

#[test]
fn every_offered_kind_is_taken_whatever_the_case_of_the_name() {
    let limits = Limits {
        max_bytes: 100,
        kinds: &[".json", ".txt"],
    };
    assert_eq!(limits.check("Notes.TxT", 5), Ok(()));
    assert_eq!(limits.check("data.Json", 100), Ok(()));
    assert_eq!(
        limits.check("notes.md", 5),
        Err(Refusal::WrongKind {
            allowed: &[".json", ".txt"]
        })
    );
    assert_eq!(
        Refusal::WrongKind {
            allowed: &[".json", ".txt"]
        }
        .message(),
        "we read .json, .txt"
    );
}

#[test]
fn a_file_is_refused_before_it_is_read_or_read_into_an_import() {
    assert_eq!(
        Import::before_reading(&JSON, "huge.json".to_string(), 2 << 20),
        Some(Import::Refused {
            name: "huge.json".to_string(),
            why: Refusal::TooLarge {
                bytes: 2 << 20,
                limit: 1 << 20
            }
        })
    );
    assert_eq!(Import::before_reading(&JSON, "ok.json".to_string(), 10), None);
    assert_eq!(
        Import::after_reading("ok.json".to_string(), Some(vec![7])),
        Import::Loaded {
            name: "ok.json".to_string(),
            bytes: vec![7]
        }
    );
    assert_eq!(
        Import::after_reading("gone.json".to_string(), None),
        Import::Refused {
            name: "gone.json".to_string(),
            why: Refusal::Unreadable
        }
    );
}
