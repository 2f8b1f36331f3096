use rustify_ui::job::{Ended, Progress, Step, SLICE_ROWS};

#[test]
fn how_a_job_ended_has_a_name_a_view_can_show() {
    assert_eq!(Ended::Done(1u8).state(), "done");
    assert_eq!(Ended::<u8>::Stale.state(), "stale");
    assert_eq!(Ended::<u8>::Cancelled.state(), "cancelled");
    assert_eq!(Ended::<u8>::Stale.done(), None);
}

#[test]
fn progress_only_ever_goes_forward_and_stops_at_the_total() {
    let mut progress = Progress::new(3, 100);
    let mut last = 0;
    for spent in [30, 0, 50, 40, 40] {
        progress.record(spent);
        assert!(progress.done >= last);
        assert!(progress.done <= progress.total);
        last = progress.done;
    }
    assert_eq!(progress.done, 100);
    assert_eq!(progress.slices, 5);
}

#[test]
fn a_write_between_two_slices_stops_the_job_before_it_reads_anything() {
    let progress = Progress::new(7, 10);
    assert_eq!(progress.refused::<u8>(true, 7), None);
    assert_eq!(progress.refused::<u8>(true, 8), Some(Ended::Stale));
    assert_eq!(progress.refused::<u8>(false, 8), Some(Ended::Cancelled));
}

#[test]
fn a_job_that_is_done_delivers_only_while_it_is_current_and_fresh() {
    let progress = Progress::new(2, 1);
    assert_eq!(progress.finish(Step::<u8>::More, true, 2), None);
    assert_eq!(progress.finish(Step::Done(9u8), true, 2), Some(Ended::Done(9)));
    assert_eq!(progress.finish(Step::Done(9u8), true, 3), Some(Ended::Stale));
    assert_eq!(progress.finish(Step::Done(9u8), false, 2), Some(Ended::Cancelled));
    assert_eq!(Ended::Done(4u8).done(), Some(4));
    assert_eq!(SLICE_ROWS, 16_384);
}
