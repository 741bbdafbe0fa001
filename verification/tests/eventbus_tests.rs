use i_am_surging::{EventBus, ReadOutcome, SurgeEvent};

fn error_event(n: u64) -> SurgeEvent {
    SurgeEvent::Error(format!("event {}", n))
}

fn expect_event(bus: &EventBus, reader: &mut i_am_surging::EventBusReader, want: &str) {
    match bus.read(reader) {
        ReadOutcome::Event(SurgeEvent::Error(m)) => assert_eq!(m, want),
        _ => panic!("expected event {}", want),
    }
}

#[test]
fn test_late_reader_sees_only_later_events() {
    // A reader attached after M events were published sees only what is
    // published after attachment, never the prior M.
    let mut bus = EventBus::new(100);
    for k in 0..5 {
        bus.publish(error_event(k));
    }

    let mut reader = bus.subscribe();
    assert!(matches!(bus.read(&mut reader), ReadOutcome::Empty));

    bus.publish(error_event(5));
    expect_event(&bus, &mut reader, "event 5");
    assert!(matches!(bus.read(&mut reader), ReadOutcome::Empty));
}

#[test]
fn test_stalled_reader_is_told_how_much_it_lost() {
    // A reader that falls more than the capacity behind receives an
    // overflow indication with the exact skip count, then the retained
    // window in order.
    let mut bus = EventBus::new(3);
    let mut reader = bus.subscribe();
    for k in 0..5 {
        bus.publish(error_event(k));
    }

    match bus.read(&mut reader) {
        ReadOutcome::Lagged(skipped) => assert_eq!(skipped, 2),
        _ => panic!("expected an overflow indication"),
    }
    expect_event(&bus, &mut reader, "event 2");
    expect_event(&bus, &mut reader, "event 3");
    expect_event(&bus, &mut reader, "event 4");
    assert!(matches!(bus.read(&mut reader), ReadOutcome::Empty));
}

#[test]
fn test_publishing_never_needs_a_reader() {
    let mut bus = EventBus::new(2);
    for k in 0..10 {
        bus.publish(error_event(k));
    }
    let mut reader = bus.subscribe();
    assert!(matches!(bus.read(&mut reader), ReadOutcome::Empty));
}

#[test]
fn test_readers_consume_independently() {
    let mut bus = EventBus::new(10);
    let mut fast = bus.subscribe();
    let mut slow = bus.subscribe();

    bus.publish(error_event(0));
    bus.publish(error_event(1));

    expect_event(&bus, &mut fast, "event 0");
    expect_event(&bus, &mut fast, "event 1");
    assert!(matches!(bus.read(&mut fast), ReadOutcome::Empty));

    expect_event(&bus, &mut slow, "event 0");
    expect_event(&bus, &mut slow, "event 1");
    assert!(matches!(bus.read(&mut slow), ReadOutcome::Empty));
}

#[test]
fn test_events_arrive_in_publication_order() {
    let mut bus = EventBus::new(100);
    let mut reader = bus.subscribe();
    for k in 0..20 {
        bus.publish(error_event(k));
    }
    for k in 0..20 {
        expect_event(&bus, &mut reader, &format!("event {}", k));
    }
}

#[test]
fn test_exactly_at_capacity_no_overflow() {
    let mut bus = EventBus::new(3);
    let mut reader = bus.subscribe();
    for k in 0..3 {
        bus.publish(error_event(k));
    }
    expect_event(&bus, &mut reader, "event 0");
    expect_event(&bus, &mut reader, "event 1");
    expect_event(&bus, &mut reader, "event 2");
}
