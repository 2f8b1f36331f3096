use rustify_ui::binding::{duplicate_key, duplicate_text_key, Binding, Drain, Sink};
use rustify_ui::scheduler::{Admission, Pace, BATCH, QUEUE_CAPACITY};
use std::cell::RefCell;
use std::rc::Rc;

#[test]
fn unique_keys_have_no_duplicate() {
    assert_eq!(duplicate_key(&[1, 2, 3]), None);
    assert_eq!(duplicate_key(&Vec::<u32>::new()), None);
}

#[test]
fn the_second_appearance_of_a_key_is_reported() {
    assert_eq!(duplicate_key(&[1, 2, 1, 3, 2]), Some(1));
    assert_eq!(duplicate_key(&["a", "b", "b"]), Some("b"));
}

#[test]
fn the_key_whose_second_appearance_comes_first_is_the_one_reported() {
    assert_eq!(duplicate_key(&[7, 8, 9, 9, 7]), Some(9));
    assert_eq!(duplicate_key(&[4, 4, 4]), Some(4));
}

#[test]
fn a_closed_binding_delivers_nothing() {
    let binding = Binding::new();
    assert!(binding.is_open());
    let mut hits = 0u32;
    {
        let deliver = binding.guard(|| hits += 1);
        deliver();
    }
    assert_eq!(hits, 1);
    let later = Binding::new();
    let guarded = later.guard(|| hits += 1);
    later.close();
    assert!(!later.is_open());
    guarded();
    assert_eq!(hits, 1);
}

#[test]
fn a_drain_is_armed_once_until_it_has_run() {
    let mut drain = Drain::new();
    assert!(drain.arm());
    assert!(!drain.arm());
    assert!(drain.begin());
    assert!(!drain.begin());
    assert!(!drain.end(false));
    assert!(drain.arm());
}

type Delivery = Box<dyn FnOnce()>;
type Shared = Rc<RefCell<Sink<Delivery>>>;
type Log = Rc<RefCell<Vec<u32>>>;

fn shared() -> Shared {
    Rc::new(RefCell::new(Sink::new()))
}

fn submit(sink: &Shared, deliver: impl FnOnce() + 'static) -> Admission {
    sink.borrow_mut().submit(Pace::Discrete, Box::new(deliver))
}

/// One turn of the scope: take a batch, run it with the sink released so the
/// callbacks may submit again, and say whether more is waiting.
fn drain_once(sink: &Shared) -> bool {
    let batch = match sink.borrow_mut().begin_drain() {
        Some(batch) => batch,
        None => return false,
    };
    for deliver in batch {
        deliver();
    }
    sink.borrow_mut().end_drain()
}

fn record(log: &Log, value: u32) -> impl FnOnce() + 'static {
    let log = log.clone();
    move || log.borrow_mut().push(value)
}

fn read(log: &Log) -> Vec<u32> {
    log.borrow().clone()
}

#[test]
fn actions_reach_the_application_in_acceptance_order() {
    let sink = shared();
    let log: Log = Log::default();
    for value in 0..3 {
        submit(&sink, record(&log, value));
    }
    assert!(!drain_once(&sink));
    assert_eq!(read(&log), vec![0, 1, 2]);
}

#[test]
fn more_than_one_batch_needs_more_than_one_drain() {
    let sink = shared();
    let log: Log = Log::default();
    for value in 0..100 {
        submit(&sink, record(&log, value));
    }
    assert!(drain_once(&sink));
    assert_eq!(read(&log).len(), 64);
    assert!(!drain_once(&sink));
    assert_eq!(read(&log), (0..100).collect::<Vec<_>>());
}

#[test]
fn an_action_submitted_by_a_callback_waits_for_the_next_drain() {
    let sink = shared();
    let log: Log = Log::default();
    let nested = {
        let sink = sink.clone();
        let log = log.clone();
        move || {
            log.borrow_mut().push(0);
            submit(&sink, record(&log, 1));
        }
    };
    submit(&sink, nested);
    assert!(drain_once(&sink));
    assert_eq!(read(&log), vec![0]);
    assert!(!drain_once(&sink));
    assert_eq!(read(&log), vec![0, 1]);
}

#[test]
fn actions_queued_before_a_binding_closed_do_not_reach_the_application_after() {
    let sink = shared();
    let log: Log = Log::default();
    let binding = Binding::new();
    let mut refused = 0;
    for value in 0..100u32 {
        let log = log.clone();
        let deliver = binding.guard(move || log.borrow_mut().push(value));
        if submit(&sink, deliver) == Admission::Backpressure {
            refused += 1;
        }
    }
    assert_eq!(refused, 0);
    assert!(drain_once(&sink));
    assert_eq!(read(&log).len(), BATCH);
    // The component goes away between two batches. Every queued item holds
    // its callback directly, so only the binding can stop them.
    binding.close();
    assert!(!drain_once(&sink));
    assert_eq!(read(&log), (0..BATCH as u32).collect::<Vec<_>>());
}

#[test]
fn the_actions_a_full_scope_refuses_are_counted_for_the_application() {
    let sink = shared();
    let log: Log = Log::default();
    let binding = Binding::new();
    let over = 76;
    let mut refused = 0u32;
    for value in 0..QUEUE_CAPACITY as u32 + over {
        let log = log.clone();
        let deliver = binding.guard(move || log.borrow_mut().push(value));
        if submit(&sink, deliver) == Admission::Backpressure {
            refused += 1;
        }
    }
    assert_eq!(refused, over);
    while drain_once(&sink) {}
    assert_eq!(read(&log).len(), QUEUE_CAPACITY);
}

#[test]
fn a_refused_action_never_runs() {
    let sink = shared();
    let log: Log = Log::default();
    for value in 0..QUEUE_CAPACITY as u32 {
        assert!(matches!(
            submit(&sink, record(&log, value)),
            Admission::Accepted(_)
        ));
    }
    assert_eq!(submit(&sink, record(&log, 9999)), Admission::Backpressure);
    while drain_once(&sink) {}
    assert_eq!(read(&log).len(), QUEUE_CAPACITY);
    assert!(!read(&log).contains(&9999));
}

#[test]
fn a_sink_counts_what_waits_and_numbers_what_it_accepts() {
    let sink = shared();
    let log: Log = Log::default();
    assert_eq!(sink.borrow().next_seq(), 0);
    assert_eq!(submit(&sink, record(&log, 5)), Admission::Accepted(0));
    assert_eq!(submit(&sink, record(&log, 6)), Admission::Accepted(1));
    assert_eq!(sink.borrow().pending(), 2);
    assert_eq!(sink.borrow().next_seq(), 2);
    assert!(sink.borrow_mut().arm());
    assert!(!sink.borrow_mut().arm());
    assert!(!drain_once(&sink));
    assert_eq!(sink.borrow().pending(), 0);
    assert_eq!(read(&log), vec![5, 6]);
    assert!(sink.borrow_mut().arm());
}

#[test]
fn the_first_text_key_to_come_twice_is_reported() {
    assert_eq!(duplicate_text_key(&["a", "b", "b"]), Some("b"));
    assert_eq!(duplicate_text_key(&["x", "y", "z", "y", "x"]), Some("y"));
    let owned = String::from("a");
    assert_eq!(duplicate_text_key(&["a", owned.as_str()]), Some("a"));
    assert_eq!(duplicate_text_key(&["a", "A", "ab"]), None);
    assert_eq!(duplicate_text_key(&[]), None);
}
