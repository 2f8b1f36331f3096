use rustify_ui::region::{gpu_attempt_delay, gpu_retry_detail, Answer, Life, RegionState, Slot};

#[test]
fn a_canvas_is_asked_three_times_and_the_answer_is_inside_two_seconds() {
    assert_eq!(
        gpu_attempt_delay(0),
        Some(0),
        "the first ask is not a retry"
    );
    assert_eq!(gpu_attempt_delay(1), Some(250));
    assert_eq!(gpu_attempt_delay(2), Some(750));
    assert_eq!(gpu_attempt_delay(3), None, "three asks and no more");
    let total: i32 = (0..3).map(|attempt| gpu_attempt_delay(attempt).unwrap()).sum();
    assert!(
        total < 2_000,
        "{total} ms is too long to wait before saying so"
    );
}

#[test]
fn every_retry_says_which_one_it_is() {
    let details: Vec<&str> = (1..3).map(gpu_retry_detail).collect();
    assert_eq!(
        details.len(),
        2,
        "the first ask is not announced as a retry"
    );
    for (index, detail) in details.iter().enumerate() {
        assert!(detail.contains(&format!("{} of 3", index + 2)), "{detail}");
    }
}

#[test]
fn a_region_that_never_gets_a_context_fails_after_the_third_ask() {
    let mut life = Life::new();
    assert!(life.should_ask());
    assert_eq!(life.answered(None), Answer::Retry { attempt: 1, wait: 250 });
    life.retry_due(1);
    assert_eq!(life.answered(None), Answer::Retry { attempt: 2, wait: 750 });
    life.retry_due(2);
    assert_eq!(life.answered(None), Answer::Failed);
    assert!(!life.should_ask());
    assert_eq!(life.answered(Some(5)), Answer::Ignored);
}

#[test]
fn a_lost_context_rebuilds_the_region_from_the_first_ask() {
    let mut life = Life::new();
    assert_eq!(life.answered(Some(7)), Answer::Live { ready: true });
    assert_eq!(life.slot, Slot::Live(7));
    assert_eq!(life.context_lost(), Some(7));
    assert!(life.should_ask());
    life.context_restored();
    assert_eq!(life.attempt, 0);
    assert_eq!(life.suspend(true), RegionState::Suspended);
    assert_eq!(life.answered(Some(8)), Answer::Live { ready: false });
    assert_eq!(life.suspend(false), RegionState::Ready);
    assert_eq!(life.close(), Some(8));
    assert_eq!(life.close(), None);
    assert_eq!(RegionState::default(), RegionState::Starting);
}
