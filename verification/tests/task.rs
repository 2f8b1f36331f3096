use rustify_ui::diagnostics::UiError;
use rustify_ui::i18n::Locale;
use rustify_ui::task::{Load, Tickets};

#[test]
fn the_four_states_name_themselves() {
    assert_eq!(Load::<u32>::Loading.state(), "loading");
    assert_eq!(Load::<u32>::Empty.state(), "empty");
    assert_eq!(Load::Ready(1u32).state(), "ready");
    assert_eq!(Load::<u32>::Error(UiError::Timeout).state(), "error");
    assert_eq!(Load::Ready(7u32).ready(), Some(&7));
    assert_eq!(
        Load::<u32>::Error(UiError::NotFound).error(),
        Some(UiError::NotFound)
    );
}

#[test]
fn a_newer_request_makes_an_older_one_stale() {
    let mut requests = Tickets::new();
    let first = requests.issue();
    assert!(requests.is_current(first));
    let second = requests.issue();
    assert!(!requests.is_current(first));
    assert!(requests.is_current(second));
}

#[test]
fn a_hundred_pairs_answered_backwards_all_end_on_the_newer_answer() {
    let mut requests = Tickets::new();
    let mut value: Option<&str> = None;
    for _ in 0..100 {
        let a = requests.issue();
        let b = requests.issue();
        if requests.is_current(b) {
            value = Some("b");
        }
        if requests.is_current(a) {
            value = Some("a");
        }
        assert_eq!(value, Some("b"));
    }
}

#[test]
fn nothing_delivers_into_a_view_that_has_gone() {
    let mut requests = Tickets::new();
    let tickets: Vec<u64> = (0..100).map(|_| requests.issue()).collect();
    requests.close();
    let delivered = tickets.iter().filter(|t| requests.is_current(**t)).count();
    assert_eq!(delivered, 0);
    assert!(!requests.is_open());
}

#[test]
fn a_cancel_leaves_nothing_that_can_deliver() {
    let mut requests = Tickets::new();
    let ticket = requests.issue();
    requests.cancel();
    assert!(!requests.is_current(ticket));
    let next = requests.issue();
    assert!(requests.is_current(next));
}

#[test]
fn a_new_load_is_loading_and_only_loading_says_so() {
    assert!(Load::<u8>::default().is_loading());
    assert!(!Load::Ready(1u8).is_loading());
    assert_eq!(Load::<u8>::Empty.ready(), None);
    assert_eq!(Load::<u8>::Empty.error(), None);
    let mut fresh = Tickets::new();
    let first = fresh.issue();
    assert_eq!(first, 1);
}

#[test]
fn a_load_says_its_state_in_the_scope_s_language_and_its_value_as_it_is() {
    assert_eq!(Load::<String>::Loading.status(Locale::English), "loading\u{2026}");
    assert_eq!(Load::<String>::Empty.status(Locale::English), "nothing to show");
    assert_eq!(
        Load::Ready("forty two".to_string()).status(Locale::Chinese),
        "forty two"
    );
    assert_eq!(
        Load::<String>::Error(UiError::Timeout).status(Locale::English),
        "that did not load: no answer before the deadline; try again"
    );
    assert_eq!(Load::<String>::Loading.status(Locale::Chinese), "加载中\u{2026}");
}

#[test]
fn a_refused_delivery_leaves_the_value_alone() {
    let mut requests = Tickets::new();
    let mut value = "kept";
    let stale = requests.issue();
    let _fresh = requests.issue();
    if requests.is_current(stale) {
        value = "clobbered";
    }
    assert_eq!(value, "kept");
}
