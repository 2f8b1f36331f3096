use rustify_ui::drag::{Drags, Outcome};

fn dropped_on(outcome: &Outcome) -> Option<&str> {
    match outcome {
        Outcome::Drop { target, .. } => Some(target),
        _ => None,
    }
}

#[test]
fn a_drop_on_a_target_that_agreed_happens_once() {
    let mut drags = Drags::new();
    let session = drags.start("object-1", "1");
    let query = drags.over(Some("group-a")).expect("asked");
    assert_eq!(drags.answer(session, query.seq, true), None);
    assert_eq!(drags.confirmed(), Some("group-a"));

    let outcome = drags.release();
    assert_eq!(dropped_on(&outcome), Some("group-a"));
    assert_eq!(drags.release(), Outcome::Nothing);
    assert!(!drags.dragging());
}

#[test]
fn accepted_then_released_over_a_target_that_refuses_delivers_nothing() {
    let mut drags = Drags::new();
    let session = drags.start("object-1", "1");
    let first = drags.over(Some("group-a")).expect("asked");
    drags.answer(session, first.seq, true);

    let second = drags.over(Some("group-b")).expect("asked");
    assert_eq!(
        drags.confirmed(),
        None,
        "moving off withdraws the first yes"
    );
    drags.answer(session, second.seq, false);

    assert_eq!(drags.release(), Outcome::Nothing);
}

#[test]
fn accepted_then_released_over_nothing_delivers_nothing() {
    let mut drags = Drags::new();
    let session = drags.start("object-1", "1");
    let query = drags.over(Some("group-a")).expect("asked");
    drags.answer(session, query.seq, true);

    assert_eq!(drags.over(None), None, "blank space is asked nothing");
    assert_eq!(drags.confirmed(), None);
    assert_eq!(drags.release(), Outcome::Nothing);
}

#[test]
fn a_late_yes_about_a_target_the_pointer_left_is_dropped() {
    let mut drags = Drags::new();
    let session = drags.start("object-1", "1");
    let first = drags.over(Some("group-a")).expect("asked");
    let second = drags.over(Some("group-b")).expect("asked");

    assert_eq!(drags.answer(session, first.seq, true), None);
    assert_eq!(drags.confirmed(), None, "the answer was about group-a");
    assert!(drags.waiting(), "group-b has still not answered");

    drags.answer(session, second.seq, false);
    assert_eq!(drags.release(), Outcome::Nothing);
}

#[test]
fn releasing_with_a_question_outstanding_waits_for_its_answer() {
    let mut drags = Drags::new();
    let session = drags.start("object-1", "1");
    let query = drags.over(Some("group-a")).expect("asked");

    assert_eq!(drags.release(), Outcome::Waiting);
    assert_eq!(
        drags.release(),
        Outcome::Waiting,
        "asking again changes nothing"
    );

    let outcome = drags.answer(session, query.seq, true).expect("decided");
    assert_eq!(dropped_on(&outcome), Some("group-a"));

    let mut drags = Drags::new();
    let session = drags.start("object-1", "1");
    let query = drags.over(Some("group-a")).expect("asked");
    drags.release();
    assert_eq!(
        drags.answer(session, query.seq, false),
        Some(Outcome::Nothing)
    );
}

#[test]
fn an_answer_from_another_session_is_not_this_session_s() {
    let mut drags = Drags::new();
    let first = drags.start("object-1", "1");
    let query = drags.over(Some("group-a")).expect("asked");
    let second = drags.start("object-2", "2");
    assert_ne!(first, second);
    assert_eq!(drags.answer(first, query.seq, true), None);
    assert_eq!(drags.confirmed(), None);
}

#[test]
fn a_cancelled_drag_delivers_nothing_and_ignores_what_arrives_after() {
    let mut drags = Drags::new();
    let session = drags.start("object-1", "1");
    let query = drags.over(Some("group-a")).expect("asked");
    drags.answer(session, query.seq, true);

    drags.cancel();
    assert!(!drags.dragging());
    assert_eq!(drags.release(), Outcome::Nothing);
    assert_eq!(drags.answer(session, query.seq, true), None);
    assert_eq!(drags.over(Some("group-b")), None);
}

#[test]
fn staying_over_one_target_asks_it_once() {
    let mut drags = Drags::new();
    drags.start("object-1", "1");
    assert!(drags.over(Some("group-a")).is_some());
    assert_eq!(drags.over(Some("group-a")), None);
    assert_eq!(drags.over(Some("group-a")), None);
}

#[test]
fn a_hundred_drags_deliver_exactly_a_hundred_drops() {
    let mut drags = Drags::new();
    let mut drops = 0;
    for round in 0..100 {
        let session = drags.start(&format!("object-{round}"), &round.to_string());
        let query = drags.over(Some("group-a")).expect("asked");
        drags.answer(session, query.seq, true);
        if dropped_on(&drags.release()).is_some() {
            drops += 1;
        }
    }
    assert_eq!(drops, 100);
}

#[test]
fn a_release_with_no_drag_at_all_is_not_a_drop() {
    let mut drags = Drags::new();
    assert_eq!(drags.release(), Outcome::Nothing);
    assert_eq!(drags.answer(1, 1, true), None);
    drags.cancel();
}

#[test]
fn a_drop_carries_the_payload_the_drag_started_with() {
    let mut drags = Drags::new();
    let session = drags.start("card-9", "payload-9");
    assert_eq!(drags.source(), Some("card-9"));
    assert_eq!(drags.payload(), Some("payload-9"));
    assert_eq!(drags.session(), Some(session));
    let query = drags.over(Some("lane")).expect("asked");
    assert_eq!(query.session, session);
    assert_eq!(query.target, "lane");
    drags.answer(session, query.seq, true);
    assert_eq!(
        drags.release(),
        Outcome::Drop {
            target: "lane".to_string(),
            payload: "payload-9".to_string()
        }
    );
}
