use fileops::{Phase, Poller, ProgressEvent, Signal};

fn feed(poller: &mut Poller, signals: Vec<Signal<String>>) -> Vec<ProgressEvent<String>> {
    let mut events = Vec::new();
    for signal in signals {
        events.extend(poller.step(signal));
    }
    events
}

fn delta_sum(events: &[ProgressEvent<String>]) -> u64 {
    let mut sum = 0;
    for event in events {
        if let ProgressEvent::Delta(bytes) = event {
            sum += *bytes;
        }
    }
    sum
}

#[test]
fn new_poller_is_polling_and_has_reported_nothing() {
    let poller = Poller::new();
    assert_eq!(poller.phase(), Phase::Polling);
    assert_eq!(poller.reported(), 0);
    assert!(!poller.is_closed());
}

#[test]
fn tick_asks_for_a_probe_and_emits_nothing() {
    let mut poller = Poller::new();
    let events = poller.step(Signal::<String>::Tick);
    assert!(events.is_empty());
    assert_eq!(poller.phase(), Phase::Probing);
}

#[test]
fn observation_of_growth_emits_the_difference() {
    let mut poller = Poller::new();
    poller.step(Signal::<String>::Tick);
    let events = poller.step(Signal::<String>::Observed(Some(100)));
    assert_eq!(events, vec![ProgressEvent::Delta(100)]);
    assert_eq!(poller.phase(), Phase::Polling);
    assert_eq!(poller.reported(), 100);

    poller.step(Signal::<String>::Tick);
    let events = poller.step(Signal::<String>::Observed(Some(250)));
    assert_eq!(events, vec![ProgressEvent::Delta(150)]);
    assert_eq!(poller.reported(), 250);
}

#[test]
fn observation_without_growth_emits_nothing() {
    let mut poller = Poller::new();
    let events = feed(
        &mut poller,
        vec![
            Signal::Tick,
            Signal::Observed(Some(40)),
            Signal::Tick,
            Signal::Observed(Some(40)),
            Signal::Tick,
            Signal::Observed(Some(10)),
        ],
    );
    assert_eq!(events, vec![ProgressEvent::Delta(40)]);
    assert_eq!(poller.reported(), 40);
    assert_eq!(poller.phase(), Phase::Polling);
}

#[test]
fn failed_observation_counts_as_no_progress() {
    let mut poller = Poller::new();
    let events = feed(
        &mut poller,
        vec![
            Signal::Tick,
            Signal::Observed(None),
            Signal::Tick,
            Signal::Observed(Some(7)),
            Signal::Tick,
            Signal::Observed(None),
        ],
    );
    assert_eq!(events, vec![ProgressEvent::Delta(7)]);
    assert_eq!(poller.reported(), 7);
    assert_eq!(poller.phase(), Phase::Polling);
}

#[test]
fn observation_that_was_not_asked_for_is_ignored() {
    let mut poller = Poller::new();
    let events = poller.step(Signal::<String>::Observed(Some(99)));
    assert!(events.is_empty());
    assert_eq!(poller.reported(), 0);
    assert_eq!(poller.phase(), Phase::Polling);
}

#[test]
fn successful_copy_sums_to_its_size_and_ends_with_zero() {
    let mut poller = Poller::new();
    let events = feed(
        &mut poller,
        vec![
            Signal::Tick,
            Signal::Observed(None),
            Signal::Tick,
            Signal::Observed(Some(300)),
            Signal::Tick,
            Signal::Observed(Some(700)),
            Signal::Completed(Ok(1000)),
        ],
    );
    assert_eq!(
        events,
        vec![
            ProgressEvent::Delta(300),
            ProgressEvent::Delta(400),
            ProgressEvent::Delta(300),
            ProgressEvent::Delta(0),
        ]
    );
    assert_eq!(delta_sum(&events[..events.len() - 1]), 1000);
    assert_eq!(events.last(), Some(&ProgressEvent::Delta(0)));
    assert!(poller.is_closed());
    assert_eq!(poller.reported(), 1000);
}

#[test]
fn copy_that_ends_before_the_first_tick() {
    let mut poller = Poller::new();
    let events = poller.step(Signal::<String>::Completed(Ok(4096)));
    assert_eq!(events, vec![ProgressEvent::Delta(4096), ProgressEvent::Delta(0)]);
    assert!(poller.is_closed());
}

#[test]
fn copy_of_an_empty_file_emits_only_the_marker() {
    let mut poller = Poller::new();
    let events = poller.step(Signal::<String>::Completed(Ok(0)));
    assert_eq!(events, vec![ProgressEvent::Delta(0)]);
    assert!(poller.is_closed());
    assert_eq!(poller.reported(), 0);
}

#[test]
fn completion_with_nothing_left_emits_only_the_marker() {
    let mut poller = Poller::new();
    let events = feed(
        &mut poller,
        vec![Signal::Tick, Signal::Observed(Some(512)), Signal::Completed(Ok(512))],
    );
    assert_eq!(events, vec![ProgressEvent::Delta(512), ProgressEvent::Delta(0)]);
}

#[test]
fn observation_beyond_the_final_size_is_not_taken_back() {
    let mut poller = Poller::new();
    let events = feed(
        &mut poller,
        vec![Signal::Tick, Signal::Observed(Some(900)), Signal::Completed(Ok(600))],
    );
    assert_eq!(events, vec![ProgressEvent::Delta(900), ProgressEvent::Delta(0)]);
    assert_eq!(poller.reported(), 900);
}

#[test]
fn completion_while_probing_closes_the_stream() {
    let mut poller = Poller::new();
    let events = feed(&mut poller, vec![Signal::Tick, Signal::Completed(Ok(10))]);
    assert_eq!(events, vec![ProgressEvent::Delta(10), ProgressEvent::Delta(0)]);
    assert!(poller.is_closed());
}

#[test]
fn cancellation_stops_everything() {
    let mut poller = Poller::new();
    let before = feed(&mut poller, vec![Signal::Tick, Signal::Observed(Some(64))]);
    assert_eq!(before, vec![ProgressEvent::Delta(64)]);

    let events = poller.step(Signal::<String>::Cancelled);
    assert!(events.is_empty());
    assert!(poller.is_closed());
    assert_eq!(poller.reported(), 64);

    let later = vec![
        Signal::Tick,
        Signal::Observed(Some(128)),
        Signal::Completed(Ok(256)),
        Signal::Completed(Err(String::from("late"))),
        Signal::Cancelled,
    ];
    for signal in later {
        let events = poller.step(signal);
        assert!(events.is_empty());
        assert_eq!(poller.phase(), Phase::Closed);
        assert_ne!(poller.phase(), Phase::Probing);
    }
    assert_eq!(poller.reported(), 64);
}

#[test]
fn cancellation_while_probing_closes_the_stream() {
    let mut poller = Poller::new();
    let events = feed(&mut poller, vec![Signal::Tick, Signal::Cancelled, Signal::Observed(Some(5))]);
    assert!(events.is_empty());
    assert!(poller.is_closed());
    assert_eq!(poller.reported(), 0);
}

#[test]
fn failed_copy_emits_one_failure_and_ends() {
    let mut poller = Poller::new();
    let events = feed(
        &mut poller,
        vec![
            Signal::Tick,
            Signal::Observed(Some(20)),
            Signal::Completed(Err(String::from("disk full"))),
            Signal::Tick,
            Signal::Observed(Some(30)),
            Signal::Completed(Err(String::from("again"))),
            Signal::Completed(Ok(30)),
        ],
    );
    assert_eq!(
        events,
        vec![ProgressEvent::Delta(20), ProgressEvent::Failure(String::from("disk full"))]
    );
    let failures = events.iter().filter(|e| matches!(e, ProgressEvent::Failure(_))).count();
    assert_eq!(failures, 1);
    assert!(matches!(events.last(), Some(ProgressEvent::Failure(_))));
    assert!(poller.is_closed());
    assert_eq!(poller.reported(), 20);
}

#[test]
fn failure_before_any_progress() {
    let mut poller = Poller::new();
    let events = poller.step(Signal::Completed(Err(String::from("no such file"))));
    assert_eq!(events, vec![ProgressEvent::Failure(String::from("no such file"))]);
    assert!(poller.is_closed());
}

#[test]
fn increments_always_add_up_to_what_was_reported() {
    let mut poller = Poller::new();
    let mut all = Vec::new();
    let sizes = [0u64, 10, 10, 5, 80, 81, 1000, 999, u64::MAX - 1];
    for size in sizes {
        all.extend(poller.step(Signal::<String>::Tick));
        all.extend(poller.step(Signal::<String>::Observed(Some(size))));
        assert_eq!(delta_sum(&all), poller.reported());
    }
    all.extend(poller.step(Signal::<String>::Completed(Ok(u64::MAX))));
    assert_eq!(delta_sum(&all), u64::MAX);
    assert_eq!(poller.reported(), u64::MAX);
    assert_eq!(all.last(), Some(&ProgressEvent::Delta(0)));
}
