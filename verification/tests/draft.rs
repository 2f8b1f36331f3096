use rustify_ui::draft::{Request, Session};
use Request::{Cancel, Commit, Preview};
use Step::{Blur, Enter, Escape, External, Focus, Type};

fn parse(text: &str) -> Option<f64> {
    text.trim()
        .parse()
        .ok()
        .filter(|value: &f64| value.is_finite())
}

fn format(value: f64) -> String {
    value.to_string()
}

/// A field driven by the steps a browser would take, beside an application
/// that holds `value` and answers requests with `accept`.
struct Field {
    session: Session<f64>,
    value: f64,
    accept: fn(f64) -> bool,
    asked: Vec<Request<f64>>,
    before: Option<f64>,
}

enum Step {
    Focus,
    Type(&'static str),
    Enter,
    Escape,
    Blur,
    External(f64),
}

impl Field {
    fn new(value: f64, accept: fn(f64) -> bool) -> Self {
        Field {
            session: Session::default(),
            value,
            accept,
            asked: Vec::new(),
            before: None,
        }
    }

    fn shows(&self) -> String {
        self.session.text(|| format(self.value))
    }

    fn run(&mut self, step: Step) {
        let request = match step {
            Step::Focus => {
                self.session.focus();
                None
            }
            Step::Type(text) => self.session.input(text.into(), parse(text)),
            Step::Enter => self.session.commit(),
            Step::Escape => self.session.escape(),
            Step::Blur => self.session.blur(),
            Step::External(value) => {
                self.value = value;
                None
            }
        };
        if let Some(request) = request {
            self.answer(request);
        }
    }

    fn answer(&mut self, request: Request<f64>) {
        match request {
            Request::Preview(value) if (self.accept)(value) => {
                self.before.get_or_insert(self.value);
                self.value = value;
            }
            Request::Commit(value) => {
                if (self.accept)(value) {
                    self.value = value;
                }
                self.before = None;
            }
            Request::Cancel => {
                if let Some(before) = self.before.take() {
                    self.value = before;
                }
            }
            Request::Preview(_) => {}
        }
        self.asked.push(request);
    }
}

fn positive(value: f64) -> bool {
    value > 0.0
}

fn anything(_: f64) -> bool {
    true
}

fn check(start: f64, accept: fn(f64) -> bool, steps: Vec<(Step, &str, Vec<Request<f64>>)>) {
    let mut field = Field::new(start, accept);
    for (index, (step, shows, asked)) in steps.into_iter().enumerate() {
        field.run(step);
        assert_eq!(field.shows(), shows, "step {index}: what the field shows");
        assert_eq!(field.asked, asked, "step {index}: what it asked for");
    }
}

#[test]
fn unfocused_and_untouched_the_field_shows_the_application_value() {
    check(
        10.0,
        anything,
        vec![
            (External(12.0), "12", vec![]),
            (Focus, "12", vec![]),
            (External(14.0), "14", vec![]),
            (Blur, "14", vec![]),
        ],
    );
}

#[test]
fn every_input_that_parses_is_a_preview_and_a_refusal_keeps_the_draft() {
    check(
        10.0,
        positive,
        vec![
            (Focus, "10", vec![]),
            (Type("-"), "-", vec![]),
            (Type("-5"), "-5", vec![Preview(-5.0)]),
            (Type("5"), "5", vec![Preview(-5.0), Preview(5.0)]),
        ],
    );
}

#[test]
fn enter_commits_once_and_the_field_settles_on_the_application_value() {
    check(
        10.0,
        anything,
        vec![
            (Focus, "10", vec![]),
            (Type("12.50"), "12.50", vec![Preview(12.5)]),
            (Enter, "12.5", vec![Preview(12.5), Commit(12.5)]),
            (Enter, "12.5", vec![Preview(12.5), Commit(12.5)]),
            (Blur, "12.5", vec![Preview(12.5), Commit(12.5)]),
        ],
    );
}

#[test]
fn blur_commits_once() {
    check(
        10.0,
        anything,
        vec![
            (Focus, "10", vec![]),
            (Type("3"), "3", vec![Preview(3.0)]),
            (Blur, "3", vec![Preview(3.0), Commit(3.0)]),
            (Blur, "3", vec![Preview(3.0), Commit(3.0)]),
        ],
    );
}

#[test]
fn a_refused_commit_goes_back_to_the_application_value() {
    check(
        10.0,
        positive,
        vec![
            (Focus, "10", vec![]),
            (Type("-3"), "-3", vec![Preview(-3.0)]),
            (Blur, "10", vec![Preview(-3.0), Commit(-3.0)]),
        ],
    );
}

#[test]
fn text_that_never_parsed_commits_nothing_and_shows_the_application_value() {
    check(
        10.0,
        anything,
        vec![
            (Focus, "10", vec![]),
            (Type("1e"), "1e", vec![]),
            (Enter, "10", vec![]),
            (Type("abc"), "abc", vec![]),
            (Blur, "10", vec![]),
        ],
    );
}

#[test]
fn text_that_stopped_parsing_commits_the_last_preview() {
    check(
        10.0,
        anything,
        vec![
            (Focus, "10", vec![]),
            (Type("12"), "12", vec![Preview(12.0)]),
            (Type("12x"), "12x", vec![Preview(12.0)]),
            (Blur, "12", vec![Preview(12.0), Commit(12.0)]),
        ],
    );
}

#[test]
fn escape_drops_the_draft_and_asks_for_the_preview_back() {
    check(
        10.0,
        anything,
        vec![
            (Focus, "10", vec![]),
            (Type("7"), "7", vec![Preview(7.0)]),
            (Escape, "10", vec![Preview(7.0), Cancel]),
            (Blur, "10", vec![Preview(7.0), Cancel]),
        ],
    );
    check(
        10.0,
        anything,
        vec![
            (Focus, "10", vec![]),
            (Type("x"), "x", vec![]),
            (Escape, "10", vec![]),
        ],
    );
}

#[test]
fn escape_on_an_untouched_field_is_not_the_field_s_key() {
    let mut session = Session::<f64>::default();
    session.focus();
    assert!(!session.touched());
    assert_eq!(session.escape(), None);
    session.input("4".into(), Some(4.0));
    assert!(session.touched());
    assert_eq!(session.escape(), Some(Cancel));
    assert!(!session.touched());
}

#[test]
fn a_touched_draft_outlasts_an_outside_change_and_settles_on_blur() {
    check(
        10.0,
        anything,
        vec![
            (Focus, "10", vec![]),
            (Type("8"), "8", vec![Preview(8.0)]),
            (External(20.0), "8", vec![Preview(8.0)]),
            (Blur, "8", vec![Preview(8.0), Commit(8.0)]),
        ],
    );
    check(
        10.0,
        positive,
        vec![
            (Focus, "10", vec![]),
            (Type("0"), "0", vec![Preview(0.0)]),
            (External(20.0), "0", vec![Preview(0.0)]),
            (Blur, "20", vec![Preview(0.0), Commit(0.0)]),
        ],
    );
}

#[test]
fn after_a_commit_an_untouched_field_follows_the_application_again() {
    check(
        10.0,
        anything,
        vec![
            (Focus, "10", vec![]),
            (Type("11"), "11", vec![Preview(11.0)]),
            (Enter, "11", vec![Preview(11.0), Commit(11.0)]),
            (External(30.0), "30", vec![Preview(11.0), Commit(11.0)]),
        ],
    );
}

#[test]
fn a_draft_is_invalid_only_while_its_text_does_not_parse() {
    let mut session = Session::<f64>::default();
    session.focus();
    assert!(!session.invalid());
    session.input("-".into(), parse("-"));
    assert!(session.invalid());
    session.input("-2".into(), parse("-2"));
    assert!(!session.invalid());
    session.input("-2e".into(), parse("-2e"));
    assert!(session.invalid());
    session.blur();
    assert!(!session.invalid(), "the field shows the application value");
}

#[test]
fn an_input_without_a_focus_event_is_still_an_edit() {
    let mut session = Session::<f64>::default();
    assert_eq!(session.input("5".into(), Some(5.0)), Some(Preview(5.0)));
    assert_eq!(session.text(|| "10".into()), "5");
    assert_eq!(session.blur(), Some(Commit(5.0)));
    assert_eq!(session.text(|| "10".into()), "10");
}

#[test]
fn an_integer_field_commits_its_last_preview_once() {
    let mut session = Session::<i64>::default();
    session.focus();
    assert_eq!(session.input("42".into(), Some(42)), Some(Preview(42)));
    assert_eq!(session.input("42z".into(), None), None);
    assert_eq!(session.commit(), Some(Commit(42)));
    assert_eq!(session.commit(), None);
    assert_eq!(session.blur(), None);
}

#[test]
fn escape_is_the_field_s_only_while_there_is_a_draft_and_composing_keys_are_not_its() {
    let mut session = Session::<f64>::default();
    session.focus();
    assert_eq!(session.key("Escape", false), (false, None));
    session.input("3".into(), Some(3.0));
    assert_eq!(session.key("Enter", true), (false, None));
    assert!(session.touched());
    assert_eq!(session.key("Escape", false), (true, Some(Cancel)));
    assert!(!session.touched());
    session.input("4".into(), Some(4.0));
    assert_eq!(session.key("Tab", false), (false, None));
    assert_eq!(session.key("Enter", false), (false, Some(Commit(4.0))));
    assert_eq!(session.key("Enter", false), (false, None));
}
