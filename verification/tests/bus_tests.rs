use virtual_agency::bus::EventBus;
use virtual_agency::bus::RecvOutcome;
use virtual_agency::events::BusEvent;
use virtual_agency::events::TerminalOutput;

fn chunk(id: &str, data: &str) -> BusEvent {
    BusEvent::TerminalOutput(TerminalOutput {
        terminal_id: id.to_string(),
        data: data.to_string(),
    })
}

fn data_of(out: RecvOutcome) -> String {
    match out {
        RecvOutcome::Event(BusEvent::TerminalOutput(t)) => t.data,
        _ => panic!("expected a terminal-output event"),
    }
}

#[test]
fn events_arrive_in_publication_order() {
    let mut bus = EventBus::new(1000);
    let mut sub = bus.subscribe();
    bus.publish(chunk("t", "one"));
    bus.publish(chunk("t", "two"));
    bus.publish(chunk("t", "three"));
    assert_eq!(data_of(bus.recv(&mut sub)), "one");
    assert_eq!(data_of(bus.recv(&mut sub)), "two");
    assert_eq!(data_of(bus.recv(&mut sub)), "three");
    assert!(matches!(bus.recv(&mut sub), RecvOutcome::Empty));
}

#[test]
fn subscribing_late_sees_no_replay() {
    let mut bus = EventBus::new(1000);
    bus.publish(chunk("t", "early"));
    let mut sub = bus.subscribe();
    assert!(matches!(bus.recv(&mut sub), RecvOutcome::Empty));
    bus.publish(chunk("t", "late"));
    assert_eq!(data_of(bus.recv(&mut sub)), "late");
}

#[test]
fn a_slow_subscriber_lags_and_loses_the_oldest() {
    let mut bus = EventBus::new(2);
    let mut sub = bus.subscribe();
    bus.publish(chunk("t", "a"));
    bus.publish(chunk("t", "b"));
    bus.publish(chunk("t", "c"));
    bus.publish(chunk("t", "d"));
    // Four events behind a capacity of two: the subscriber lags, then
    // catches up at the oldest retained event.
    assert!(matches!(bus.recv(&mut sub), RecvOutcome::Lagged));
    assert_eq!(data_of(bus.recv(&mut sub)), "c");
    assert_eq!(data_of(bus.recv(&mut sub)), "d");
    assert!(matches!(bus.recv(&mut sub), RecvOutcome::Empty));
}

#[test]
fn trailing_by_exactly_the_capacity_loses_nothing() {
    let mut bus = EventBus::new(2);
    let mut sub = bus.subscribe();
    bus.publish(chunk("t", "a"));
    bus.publish(chunk("t", "b"));
    assert_eq!(data_of(bus.recv(&mut sub)), "a");
    assert_eq!(data_of(bus.recv(&mut sub)), "b");
}

#[test]
fn each_subscriber_has_its_own_cursor() {
    let mut bus = EventBus::new(1000);
    let mut one = bus.subscribe();
    bus.publish(chunk("t", "x"));
    let mut two = bus.subscribe();
    bus.publish(chunk("t", "y"));
    assert_eq!(data_of(bus.recv(&mut one)), "x");
    assert_eq!(data_of(bus.recv(&mut one)), "y");
    assert_eq!(data_of(bus.recv(&mut two)), "y");
    assert!(matches!(bus.recv(&mut two), RecvOutcome::Empty));
}
