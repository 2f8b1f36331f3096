use rustify_ui::toast::{Expiry, Toast, ToastOptions, ToastTone, Toasts, DEFAULT_DURATION_MS};

fn options(duration_ms: u32) -> ToastOptions {
    ToastOptions {
        duration_ms,
        ..ToastOptions::default()
    }
}

/// The messages of a scope beside the clock the host keeps for them: when
/// the message showing is due to go.
struct Clocked {
    toasts: Toasts,
    until: f64,
}

impl Clocked {
    fn new() -> Self {
        Clocked {
            toasts: Toasts::default(),
            until: 0.0,
        }
    }

    fn show(&mut self, message: &str, options: ToastOptions, now: f64) -> u64 {
        self.until = now + f64::from(options.duration_ms);
        self.toasts.show(message.into(), options)
    }

    fn expire(&mut self, seq: u64, now: f64) -> Expiry {
        self.toasts.expire(seq, now >= self.until)
    }
}

#[test]
fn a_message_shows_with_the_default_options_until_its_time_is_up() {
    assert_eq!(ToastOptions::default().duration_ms, 3200);
    assert_eq!(ToastOptions::default().tone, ToastTone::Neutral);

    let mut clocked = Clocked::new();
    assert_eq!(clocked.toasts.current(), None);
    let seq = clocked.show("saved", ToastOptions::default(), 1000.0);
    assert_eq!(
        clocked.toasts.current(),
        Some(&Toast {
            seq,
            message: "saved".into(),
            tone: ToastTone::Neutral,
        })
    );
    let due = 1000.0 + f64::from(DEFAULT_DURATION_MS);
    assert_eq!(clocked.expire(seq, due), Expiry::Hidden);
    assert_eq!(clocked.toasts.current(), None);
}

#[test]
fn every_message_gets_a_higher_number_and_replaces_the_one_before() {
    let mut toasts = Toasts::default();
    let first = toasts.show("one".into(), options(3200));
    let second = toasts.show(
        "two".into(),
        ToastOptions {
            duration_ms: 3200,
            tone: ToastTone::Error,
        },
    );
    assert!(second > first);
    let showing = toasts.current().expect("the second message");
    assert_eq!(showing.seq, second);
    assert_eq!(showing.message, "two");
    assert_eq!(showing.tone, ToastTone::Error);
    toasts.dismiss(second);
    assert!(toasts.show("three".into(), options(3200)) > second);
}

#[test]
fn a_replaced_message_timer_leaves_its_successor_alone() {
    let mut clocked = Clocked::new();
    let first = clocked.show("one", options(1000), 0.0);
    let second = clocked.show("two", options(1000), 900.0);
    assert_eq!(clocked.expire(first, 1000.0), Expiry::Gone);
    assert_eq!(clocked.toasts.current().map(|toast| toast.seq), Some(second));
    assert_eq!(clocked.expire(second, 1900.0), Expiry::Hidden);
}

#[test]
fn a_timer_that_fires_early_leaves_the_message_up() {
    let mut clocked = Clocked::new();
    let seq = clocked.show("saved", options(3200), 100.0);
    assert_eq!(clocked.expire(seq, 3299.5), Expiry::Early);
    assert!(clocked.toasts.current().is_some());
    assert_eq!(clocked.expire(seq, 3300.0), Expiry::Hidden);
    assert_eq!(clocked.expire(seq, 3400.0), Expiry::Gone);
}

#[test]
fn dismissing_closes_only_the_message_it_names() {
    let mut toasts = Toasts::default();
    let first = toasts.show("one".into(), options(3200));
    let second = toasts.show("two".into(), options(3200));
    assert!(!toasts.dismiss(first), "already replaced");
    assert_eq!(toasts.current().map(|toast| toast.seq), Some(second));
    assert!(toasts.dismiss(second));
    assert_eq!(toasts.current(), None);
    assert!(!toasts.dismiss(second), "already gone");
    assert_eq!(toasts.expire(second, true), Expiry::Gone);
}

#[test]
fn every_tone_has_a_name_of_its_own() {
    let keys: std::collections::HashSet<&str> = [
        ToastTone::Neutral,
        ToastTone::Success,
        ToastTone::Warning,
        ToastTone::Error,
    ]
    .into_iter()
    .map(ToastTone::key)
    .collect();
    assert_eq!(keys.len(), 4);
    assert_eq!(ToastTone::default(), ToastTone::Neutral);
    assert_eq!(ToastTone::Warning.key(), "warning");
}
