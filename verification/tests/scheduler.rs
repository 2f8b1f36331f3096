use rustify_ui::scheduler::{Admission, Pace, Scheduler, BATCH, QUEUE_CAPACITY};

fn scheduler() -> Scheduler<&'static str> {
    Scheduler::with_limits(4, 3)
}

#[test]
fn discrete_actions_keep_arrival_order_and_consecutive_sequence_numbers() {
    let mut scheduler = scheduler();
    assert_eq!(
        scheduler.accept(Pace::Discrete, "a"),
        Admission::Accepted(0)
    );
    assert_eq!(
        scheduler.accept(Pace::Discrete, "b"),
        Admission::Accepted(1)
    );
    assert_eq!(scheduler.take_batch(), vec!["a", "b"]);
    assert!(scheduler.is_empty());
}

#[test]
fn a_full_queue_reports_backpressure_and_spends_no_sequence_number() {
    let mut scheduler = scheduler();
    for _ in 0..4 {
        assert!(matches!(
            scheduler.accept(Pace::Discrete, "a"),
            Admission::Accepted(_)
        ));
    }
    assert_eq!(
        scheduler.accept(Pace::Discrete, "rejected"),
        Admission::Backpressure
    );
    assert_eq!(
        scheduler.accept(Pace::Discrete, "still rejected"),
        Admission::Backpressure
    );
    assert_eq!(scheduler.pending(), 4);
    scheduler.take_batch();
    assert_eq!(
        scheduler.accept(Pace::Discrete, "next"),
        Admission::Accepted(4)
    );
}

#[test]
fn only_the_latest_continuous_action_survives_and_it_uses_no_queue_capacity() {
    let mut scheduler = scheduler();
    for _ in 0..4 {
        scheduler.accept(Pace::Discrete, "click");
    }
    for value in ["move 1", "move 2", "move 3"] {
        assert!(matches!(
            scheduler.accept(Pace::Continuous("move"), value),
            Admission::Accepted(_)
        ));
    }
    assert_eq!(scheduler.pending(), 5);
    let drained: Vec<&str> = std::iter::from_fn(|| {
        let batch = scheduler.take_batch();
        (!batch.is_empty()).then_some(batch)
    })
    .flatten()
    .collect();
    assert_eq!(drained, vec!["click", "click", "click", "click", "move 3"]);
}

#[test]
fn a_continuous_action_keeps_its_place_among_the_discrete_ones() {
    let mut scheduler = scheduler();
    scheduler.accept(Pace::Discrete, "press");
    scheduler.accept(Pace::Continuous("pointer"), "move");
    scheduler.accept(Pace::Discrete, "release");
    assert_eq!(scheduler.take_batch(), vec!["press", "move", "release"]);
}

#[test]
fn two_streams_supersede_themselves_and_not_each_other() {
    let mut scheduler = scheduler();
    scheduler.accept(Pace::Continuous("hover"), "hover 1");
    scheduler.accept(Pace::Continuous("scroll"), "scroll 1");
    scheduler.accept(Pace::Continuous("hover"), "hover 2");
    assert_eq!(scheduler.pending(), 2);
    assert_eq!(scheduler.take_batch(), vec!["scroll 1", "hover 2"]);
    assert!(scheduler.is_empty());
}

#[test]
fn a_second_stream_still_cannot_push_a_click_into_backpressure() {
    let mut scheduler = scheduler();
    for _ in 0..4 {
        scheduler.accept(Pace::Discrete, "click");
    }
    for stream in ["hover", "scroll", "hit"] {
        assert!(matches!(
            scheduler.accept(Pace::Continuous(stream), "state"),
            Admission::Accepted(_)
        ));
    }
    assert_eq!(
        scheduler.accept(Pace::Discrete, "one click too many"),
        Admission::Backpressure
    );
}

#[test]
fn a_batch_is_bounded_and_the_rest_stays_in_order() {
    let mut scheduler = scheduler();
    for value in ["a", "b", "c", "d"] {
        scheduler.accept(Pace::Discrete, value);
    }
    assert_eq!(scheduler.take_batch(), vec!["a", "b", "c"]);
    assert_eq!(scheduler.take_batch(), vec!["d"]);
    assert_eq!(scheduler.take_batch(), Vec::<&str>::new());
}

#[test]
fn the_default_scheduler_takes_a_thousand_and_twenty_four_and_hands_out_sixty_four() {
    let mut scheduler: Scheduler<u32> = Scheduler::new();
    let mut refused = 0;
    for value in 0..(QUEUE_CAPACITY as u32 + 76) {
        if scheduler.accept(Pace::Discrete, value) == Admission::Backpressure {
            refused += 1;
        }
    }
    assert_eq!(refused, 76);
    let first = scheduler.take_batch();
    assert_eq!(first.len(), BATCH);
    assert_eq!(first, (0..64).collect::<Vec<u32>>());
    assert_eq!(scheduler.pending(), QUEUE_CAPACITY - BATCH);
}
