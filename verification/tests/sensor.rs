use link_lib::rtc::{Event as RtcEvent, EventType as RtcEventType};
use link_lib::sensor::light::{
    exti0_1, light_interrupt, setup_window, LogAction, wait_for_dark, wait_for_light, RawLimit, EXPONENT_MAX,
    EXPONENT_THRESHOLD, MANTISSA_MAX, MANTISSA_THRESHOLD,
};
use link_lib::sensor::storage::event::Event;
use link_lib::sensor::tasks::{blink_step, uart_must_clear};
use link_lib::link::event::EventType;

#[test]
fn dark_and_light_windows() {
    let dark = wait_for_dark(10, 2);
    assert!(dark.high == RawLimit { exponent: EXPONENT_MAX, mantissa: MANTISSA_MAX });
    assert!(dark.low == RawLimit { exponent: 2, mantissa: 10 });
    let light = wait_for_light(10, 2);
    assert!(light.high == RawLimit { exponent: 2, mantissa: 10 });
    assert!(light.low == RawLimit { exponent: 0, mantissa: 0 });
    assert!(setup_window() == wait_for_light(MANTISSA_THRESHOLD, EXPONENT_THRESHOLD));
}

#[test]
fn light_interrupt_logs_and_rearms() {
    let (w, a) = light_interrupt(true, false, 77, 60).unwrap();
    assert_eq!(a, LogAction::AddOrOverwrite(Event::High(77), 60));
    assert!(w == wait_for_dark(MANTISSA_THRESHOLD, EXPONENT_THRESHOLD));
    let (w, a) = light_interrupt(false, true, 78, 60).unwrap();
    assert_eq!(a, LogAction::AddNew(Event::Low(78)));
    assert!(w == wait_for_light(MANTISSA_THRESHOLD, EXPONENT_THRESHOLD));
    let (_, a) = light_interrupt(true, true, 79, 5).unwrap();
    assert_eq!(a, LogAction::AddOrOverwrite(Event::High(79), 5));
    assert!(light_interrupt(false, false, 80, 60).is_none());
}

#[test]
fn first_firmware_light_flag() {
    let (stored, speedy) = exti0_1(true, false, 77);
    let (w, e) = stored.unwrap();
    assert!(w == wait_for_dark(MANTISSA_THRESHOLD, EXPONENT_THRESHOLD));
    assert_eq!(e.timestamp, 77);
    assert_eq!(e.event_type, EventType::High);
    assert!(speedy);
    let (stored, speedy) = exti0_1(false, true, 78);
    let (w, e) = stored.unwrap();
    assert!(w == wait_for_light(MANTISSA_THRESHOLD, EXPONENT_THRESHOLD));
    assert_eq!(e.event_type, EventType::Low);
    assert!(!speedy);
    let (stored, speedy) = exti0_1(false, false, 79);
    assert!(stored.is_none());
    assert!(!speedy);
}

#[test]
fn blink_toggles_and_paces() {
    assert_eq!(blink_step(true, true), (true, false, 100));
    assert_eq!(blink_step(false, false), (false, true, 1000));
}

#[test]
fn uart_buffer_cleared_after_silence() {
    assert!(!uart_must_clear(10, 7));
    assert!(uart_must_clear(11, 7));
}

#[test]
fn rtc_event_bytes_round_trip() {
    let event = RtcEvent { timestamp: 0x0A0B_0C0D, event_type: RtcEventType::Low };
    let bytes = event.to_be_bytes();
    assert_eq!(bytes, [0x0A, 0x0B, 0x0C, 0x0D, 2]);
    let back = RtcEvent::from_be_bytes(&bytes);
    assert_eq!(back.timestamp, 0x0A0B_0C0D);
    assert!(matches!(back.event_type, RtcEventType::Low));
    assert!(matches!(RtcEventType::try_from(3u8), Ok(RtcEventType::Alive)));
    assert!(RtcEventType::try_from(0u8).is_err());
}

#[test]
fn event_type_codes() {
    assert_eq!(EventType::try_from(1u8), Ok(EventType::High));
    assert_eq!(EventType::try_from(2u8), Ok(EventType::Low));
    assert_eq!(EventType::try_from(3u8), Ok(EventType::Alive));
    assert_eq!(EventType::try_from(4u8), Err(()));
    assert_eq!(EventType::Alive.code(), 3);
}
