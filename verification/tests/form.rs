use rustify_ui::form::{FormState, Generation, Submit};

fn form() -> FormState {
    FormState::new(&[
        "name", "email", "phone", "street", "city", "postcode", "country", "notes", "start", "end",
    ])
}

fn required(field: &'static str) -> Vec<(&'static str, String)> {
    vec![(field, format!("{field} is required"))]
}

#[test]
fn a_new_form_is_clean_and_ready() {
    let state = form();
    assert!(state.can_submit());
    assert!(!state.dirty());
    assert_eq!(state.first_error(), None);
}

#[test]
fn a_change_clears_what_was_said_about_the_old_value() {
    let mut state = form();
    state.set_error("email", Some("not an address".to_string()));
    assert_eq!(state.error("email"), Some("not an address"));

    state.changed("email");
    assert_eq!(state.error("email"), None);
    assert!(state.dirty());
}

#[test]
fn twenty_validations_arriving_out_of_order_leave_the_latest_one_showing() {
    let mut state = form();
    let mut started = Vec::new();
    for round in 0..20 {
        state.changed("email");
        let generation = state.validating("email");
        started.push((generation, format!("round {round}")));
    }
    for (generation, message) in started.iter().rev().skip(1) {
        state.validated("email", *generation, Some(message.clone()));
    }
    assert_eq!(state.error("email"), None);
    assert!(state.is_validating());

    let (generation, message) = started.last().unwrap();
    state.validated("email", *generation, Some(message.clone()));
    assert_eq!(state.error("email"), Some(message.as_str()));
    assert!(!state.is_validating());
}

#[test]
fn a_failed_rule_names_the_first_field_in_field_order_not_the_first_rule_to_fail() {
    let mut state = form();
    let asked = state.submit(|| {
        vec![
            ("notes", "too long".to_string()),
            ("email", "not an address".to_string()),
        ]
    });
    assert_eq!(
        asked,
        Submit::Blocked {
            first_error: "email"
        }
    );
    assert!(!state.can_submit());
}

#[test]
fn a_rule_that_stops_failing_stops_showing() {
    let mut state = form();
    assert!(matches!(
        state.submit(|| required("email")),
        Submit::Blocked { .. }
    ));
    state.changed("email");
    assert_eq!(state.submit(Vec::new), Submit::Save);
    assert_eq!(state.error("email"), None);
}

#[test]
fn submitting_while_a_validation_runs_waits_and_then_saves_once() {
    let mut state = form();
    state.changed("email");
    let generation = state.validating("email");

    assert_eq!(state.submit(Vec::new), Submit::Waiting);
    assert!(state.waiting());
    assert!(!state.submitting(), "nothing is saved while waiting");

    assert_eq!(
        state.validated("email", generation, None),
        Some(Submit::Save)
    );
    assert!(state.submitting());
    assert!(!state.waiting());
}

#[test]
fn a_validation_that_fails_turns_a_waiting_submit_into_a_block() {
    let mut state = form();
    state.changed("email");
    let generation = state.validating("email");
    assert_eq!(state.submit(Vec::new), Submit::Waiting);

    assert_eq!(
        state.validated("email", generation, Some("taken".to_string())),
        Some(Submit::Blocked {
            first_error: "email"
        })
    );
    assert!(!state.submitting(), "a failed check saves nothing");
    assert!(!state.waiting());
}

#[test]
fn changing_a_field_while_a_submit_waits_voids_the_submit() {
    let mut state = form();
    state.changed("email");
    let generation = state.validating("email");
    assert_eq!(state.submit(Vec::new), Submit::Waiting);

    state.changed("phone");
    assert!(!state.waiting());
    assert_eq!(state.validated("email", generation, None), None);
    assert!(!state.submitting(), "the voided request saves nothing");
}

#[test]
fn twenty_clicks_while_a_save_runs_are_one_save() {
    let mut state = form();
    assert_eq!(state.submit(Vec::new), Submit::Save);
    for _ in 0..20 {
        assert_eq!(state.submit(Vec::new), Submit::Busy);
    }
    state.submitted(Ok(()));
    assert!(!state.submitting());
    assert!(!state.dirty());
}

#[test]
fn a_save_that_fails_keeps_the_form_dirty_and_says_why() {
    let mut state = form();
    state.changed("email");
    assert_eq!(state.submit(Vec::new), Submit::Save);
    state.submitted(Err("the server said no".to_string()));

    assert!(state.dirty(), "nothing was saved, so there is still work");
    assert_eq!(state.failure(), Some("the server said no"));
    assert!(state.can_submit(), "and it can be asked again");

    assert_eq!(state.submit(Vec::new), Submit::Save);
    assert_eq!(state.failure(), None, "asking again clears the last answer");
}

#[test]
fn asking_twenty_times_after_an_async_failure_never_saves() {
    let mut state = form();
    state.changed("email");
    let generation = state.validating("email");
    state.validated("email", generation, Some("taken".to_string()));

    for _ in 0..20 {
        assert_eq!(
            state.submit(Vec::new),
            Submit::Blocked {
                first_error: "email"
            }
        );
        assert!(!state.submitting());
    }
}

#[test]
fn asking_right_after_a_change_waits_for_the_check_that_change_started() {
    let mut state = form();
    for _ in 0..20 {
        state.changed("email");
        let generation = state.validating("email");
        assert_eq!(state.submit(Vec::new), Submit::Waiting);
        assert_eq!(
            state.validated("email", generation, None),
            Some(Submit::Save)
        );
        state.submitted(Ok(()));
    }
}

#[test]
fn can_submit_is_false_for_each_of_the_three_reasons() {
    let mut state = form();
    state.changed("email");
    state.validating("email");
    assert!(!state.can_submit(), "a check is running");

    let generation = state.generation("email");
    state.validated("email", generation, Some("taken".to_string()));
    assert!(!state.can_submit(), "a field is wrong");

    state.changed("email");
    assert!(state.can_submit());
    assert_eq!(state.submit(Vec::new), Submit::Save);
    assert!(!state.can_submit(), "a save is running");
}

#[test]
fn a_field_the_form_does_not_have_is_recorded_rather_than_ignored() {
    let mut state = form();
    state.changed("nickname");
    state.set_error("nickname", Some("no such field".to_string()));

    assert_eq!(state.error("nickname"), None);
    assert_eq!(
        state.validated("nickname", state.generation("nickname"), None),
        None
    );
    assert!(state.can_submit(), "and the form is unharmed");

    let named = state
        .unknown_fields()
        .iter()
        .filter(|field| **field == "nickname")
        .count();
    assert_eq!(named, 3);
}

#[test]
fn an_error_from_a_check_survives_the_next_ask_and_a_rules_error_does_not() {
    let mut state = form();
    state.set_error("email", Some("a rule said no".to_string()));
    assert!(matches!(state.submit(Vec::new), Submit::Save));
    assert_eq!(state.error("email"), None);

    let mut state = form();
    let generation = state.validating("email");
    state.validated("email", generation, Some("a check said no".to_string()));
    assert_eq!(
        state.submit(Vec::new),
        Submit::Blocked {
            first_error: "email"
        }
    );
    assert_eq!(state.error("email"), Some("a check said no"));
}

#[test]
fn an_answer_for_an_old_generation_changes_nothing() {
    let mut state = form();
    let old = state.validating("city");
    assert_eq!(old, Generation(0));
    state.changed("city");
    assert_eq!(state.generation("city"), Generation(1));
    assert_eq!(state.validated("city", old, Some("late".to_string())), None);
    assert_eq!(state.error("city"), None);
    assert_eq!(state.fields().len(), 10);
    assert_eq!(state.fields()[0], "name");
}

#[test]
fn rules_given_as_a_list_decide_like_rules_run_in_place() {
    let mut state = form();
    assert_eq!(
        state.submit_with(vec![("end", "before start".to_string())]),
        Submit::Blocked { first_error: "end" }
    );
    assert_eq!(state.first_error(), Some("end"));
    assert_eq!(state.submit_with(Vec::new()), Submit::Save);
}
