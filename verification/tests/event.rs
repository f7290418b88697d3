use link_lib::link::event::{Event, EventType};

#[test]
fn bytes_convertion() {
    let event = Event { timestamp: 102654646u32, event_type: EventType::High };
    let mut bytes = event.to_be_bytes();
    let converted = Event::from_be_bytes(&bytes);
    assert_eq!(event, converted);
    bytes[3] += 1;
    let converted = Event::from_be_bytes(&bytes);
    assert_ne!(event, converted);
}
