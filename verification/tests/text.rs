use rustify_ui::text::{checkbox_change, needs_settle, EditAction, EditSession, Reaction, Typing};

#[test]
fn a_composition_in_flight_is_not_a_value() {
    let mut typing = Typing::default();
    typing.composition_start();
    assert_eq!(
        typing.input(false, false),
        Reaction {
            report: false,
            settle: false
        }
    );
    assert_eq!(
        typing.composition_end(false, false),
        Reaction {
            report: true,
            settle: true
        }
    );
    assert_eq!(
        typing.input(false, true),
        Reaction {
            report: false,
            settle: true
        }
    );
}

#[test]
fn a_closed_checkbox_reports_nothing_and_is_put_back() {
    assert_eq!(
        checkbox_change(true, false),
        Reaction {
            report: false,
            settle: true
        }
    );
    assert_eq!(
        checkbox_change(false, false),
        Reaction {
            report: true,
            settle: true
        }
    );
}

#[test]
fn settling_writes_only_when_the_control_shows_something_else() {
    assert!(!needs_settle("abc", "abc"));
    assert!(needs_settle("abc", "abd"));
    assert!(needs_settle("", "a"));
}

#[test]
fn an_edit_session_ends_exactly_once() {
    let mut session = EditSession::new(false);
    assert_eq!(session.value_seen("hello".to_string()), EditAction::Open);
    assert_eq!(session.value_seen("hello".to_string()), EditAction::Nothing);
    assert_eq!(session.key(true), (true, EditAction::Commit));
    assert_eq!(session.commit(), EditAction::Nothing);
    assert_eq!(session.cancel(), EditAction::Nothing);
}

#[test]
fn a_value_that_moves_underneath_invalidates_the_session() {
    let mut session = EditSession::new(true);
    session.value_seen("a".to_string());
    assert_eq!(session.key(true), (false, EditAction::Nothing));
    assert_eq!(session.value_seen("b".to_string()), EditAction::Invalidated);
    assert_eq!(session.value_seen("c".to_string()), EditAction::Nothing);
    assert_eq!(session.cancel(), EditAction::Nothing);
}

#[test]
fn enter_while_composing_belongs_to_the_composition() {
    let mut session = EditSession::new(false);
    session.value_seen("x".to_string());
    session.composition(true);
    assert_eq!(session.key(true), (true, EditAction::Nothing));
    session.composition(false);
    assert_eq!(session.cancel(), EditAction::Cancel);
}

#[test]
fn a_committed_session_still_knows_what_it_opened_with() {
    let mut session = EditSession::new(false);
    session.value_seen("draft".to_string());
    assert_eq!(session.key(true), (true, EditAction::Commit));
    assert_eq!(session.opened_with.as_deref(), Some("draft"));
    assert!(!session.multiline);
    assert_eq!(session.value_seen("draft".to_string()), EditAction::Nothing);
}
