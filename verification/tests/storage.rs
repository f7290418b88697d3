use link_lib::sensor::eeprom::{
    byte_address, decode_count, decode_sensor_id, encode_count, encode_sensor_id, get_event_adress,
    incremented_count, write_is_retried, EepromWriteError, EVENT_ADDRESS,
};
use link_lib::sensor::storage::event::{Event, TS_OFFSET_FROM_UNIX};
use link_lib::sensor::storage::event_storage::{
    add_or_overwrite_decision, decode_device_id, decode_event_record, decode_number_of_event,
    encode_device_id, encode_event_record, encode_number_of_event, event_address,
    get_event_address, get_event_from_end_address, number_of_event_after_addition,
    number_of_event_after_removal, OverwriteDecision, EVENT_ADDR, NUM_OF_EVENT_ADDR,
    add_or_overwrite_step, count_write_for_addition, count_write_for_clear,
    count_write_for_removal, device_id_write, event_write_for_addition,
};

#[test]
fn compact_values_of_each_kind() {
    assert_eq!(Event::Low(TS_OFFSET_FROM_UNIX).to_compact_u32(), 0x0000_0000);
    assert_eq!(Event::High(TS_OFFSET_FROM_UNIX + 5).to_compact_u32(), 0x4000_0005);
    assert_eq!(Event::Error(TS_OFFSET_FROM_UNIX + 0x3FFF_FFFF).to_compact_u32(), 0xBFFF_FFFF);
    assert_eq!(Event::PwrOn(TS_OFFSET_FROM_UNIX + 1).to_compact_u32(), 0xC000_0001);
}

#[test]
fn compact_values_read_back() {
    assert_eq!(Event::from_compact_u32(0x4000_0005), Ok(Event::High(TS_OFFSET_FROM_UNIX + 5)));
    assert_eq!(Event::from_compact_u32(0), Ok(Event::Low(TS_OFFSET_FROM_UNIX)));
    assert_eq!(Event::from_compact_u32(0x8000_0000), Ok(Event::Error(TS_OFFSET_FROM_UNIX)));
    assert_eq!(Event::from_compact_u32(u32::MAX), Ok(Event::PwrOn(TS_OFFSET_FROM_UNIX + 0x3FFF_FFFF)));
    for v in [0u32, 1, 0x3FFF_FFFF, 0x4000_0000, 0x7FFF_FFFF, 0x8000_0001, 0xC123_4567, u32::MAX] {
        assert_eq!(Event::from_compact_u32(v).unwrap().to_compact_u32(), v);
    }
}

#[test]
fn compact_timestamps_wrap_outside_their_range() {
    assert_eq!(Event::High(TS_OFFSET_FROM_UNIX - 1).to_compact_u32(), 0x7FFF_FFFF);
    assert_eq!(Event::Low(TS_OFFSET_FROM_UNIX + 0x4000_0000).to_compact_u32(), 0);
}

#[test]
fn event_records_are_big_endian_compact_values() {
    let e = Event::High(TS_OFFSET_FROM_UNIX + 0x0102_0304);
    assert_eq!(encode_event_record(e), [0x41, 0x02, 0x03, 0x04]);
    assert_eq!(decode_event_record([0x41, 0x02, 0x03, 0x04]), Ok(e));
}

#[test]
fn header_fields_are_big_endian() {
    assert_eq!(encode_number_of_event(0x0102_0304), [1, 2, 3, 4]);
    assert_eq!(decode_number_of_event([0, 0, 1, 0]), 256);
    assert_eq!(encode_device_id(0x0102_0304_0506_0708), [1, 2, 3, 4, 5, 6, 7, 8]);
    assert_eq!(decode_device_id([1, 2, 3, 4, 5, 6, 7, 8]), 0x0102_0304_0506_0708);
    assert_eq!(decode_device_id(encode_device_id(u64::MAX)), u64::MAX);
}

#[test]
fn event_places() {
    assert_eq!(event_address(0), EVENT_ADDR);
    assert_eq!(event_address(3), 24);
    assert_eq!(NUM_OF_EVENT_ADDR, 8);
    assert_eq!(get_event_address(2, 3), None);
    assert_eq!(get_event_address(2, 1), Some(16));
    assert_eq!(get_event_address(2, 2), Some(20));
    assert_eq!(get_event_from_end_address(3, 0), Some(20));
    assert_eq!(get_event_from_end_address(3, 2), Some(12));
    assert_eq!(get_event_from_end_address(3, 4), None);
}

#[test]
fn high_shortly_after_low_fuses() {
    let low = Some(Event::Low(990));
    let high = Some(Event::High(980));
    assert_eq!(add_or_overwrite_decision(low, Event::High(1000), 20), OverwriteDecision::RemoveLast);
    assert_eq!(add_or_overwrite_decision(low, Event::High(1000), 10), OverwriteDecision::RemoveLast);
    assert_eq!(add_or_overwrite_decision(low, Event::High(1000), 5), OverwriteDecision::AddNew);
    assert_eq!(add_or_overwrite_decision(high, Event::High(1000), 5000), OverwriteDecision::AddNew);
    assert_eq!(add_or_overwrite_decision(low, Event::Low(1000), 5000), OverwriteDecision::AddNew);
    assert_eq!(add_or_overwrite_decision(None, Event::High(1000), 5000), OverwriteDecision::AddNew);
}

#[test]
fn fusion_step_reads_the_newest_event() {
    let count = encode_number_of_event(3);
    let last = encode_event_record(Event::Low(TS_OFFSET_FROM_UNIX + 100));
    let high = Event::High(TS_OFFSET_FROM_UNIX + 130);
    assert_eq!(add_or_overwrite_step(count, last, high, 30), OverwriteDecision::RemoveLast);
    assert_eq!(add_or_overwrite_step(count, last, high, 29), OverwriteDecision::AddNew);
    let last_high = encode_event_record(Event::High(TS_OFFSET_FROM_UNIX + 100));
    assert_eq!(add_or_overwrite_step(count, last_high, high, 30), OverwriteDecision::AddNew);
}

#[test]
fn log_writes_of_each_operation() {
    let count = encode_number_of_event(2);
    let event = Event::High(TS_OFFSET_FROM_UNIX + 7);
    assert_eq!(event_write_for_addition(count, event), (20, [0x40, 0, 0, 7]));
    assert_eq!(count_write_for_addition(count), (NUM_OF_EVENT_ADDR, [0, 0, 0, 3]));
    assert_eq!(count_write_for_removal(count), (NUM_OF_EVENT_ADDR, [0, 0, 0, 1]));
    assert_eq!(count_write_for_clear(), (NUM_OF_EVENT_ADDR, [0, 0, 0, 0]));
    assert_eq!(device_id_write(0x0102_0304_0506_0708), (0, [1, 2, 3, 4, 5, 6, 7, 8]));
}

#[test]
fn counts_move_by_one() {
    assert_eq!(number_of_event_after_addition(4), 5);
    assert_eq!(number_of_event_after_removal(4), 3);
    assert_eq!(incremented_count(9), 10);
}

#[test]
fn first_layout_is_little_endian() {
    assert_eq!(encode_count(0x0102_0304), vec![4, 3, 2, 1]);
    assert_eq!(decode_count(&[4, 3, 2, 1]), 0x0102_0304);
    assert_eq!(encode_sensor_id(1), vec![1, 0, 0, 0, 0, 0, 0, 0]);
    assert_eq!(decode_sensor_id(&encode_sensor_id(0xABCD)), 0xABCD);
    assert_eq!(get_event_adress(0), EVENT_ADDRESS);
    assert_eq!(get_event_adress(2), 24);
    assert_eq!(byte_address(100, 3), 103);
}

#[test]
fn only_a_busy_bus_is_retried() {
    assert!(write_is_retried(EepromWriteError::I2C));
    assert!(!write_is_retried(EepromWriteError::TooMuchData));
    assert!(!write_is_retried(EepromWriteError::InvalidAddr));
}

#[test]
fn log_writes_stay_past_the_device_id() {
    let count = encode_number_of_event(5);
    let event = Event::Low(TS_OFFSET_FROM_UNIX + 1);
    let (address, data) = event_write_for_addition(count, event);
    assert!(address >= 12);
    assert_eq!(data.len(), 4);
    assert!(count_write_for_addition(count).0 >= 8);
    assert!(count_write_for_removal(count).0 >= 8);
    assert!(count_write_for_clear().0 >= 8);
    let (id_address, id_data) = device_id_write(7);
    assert_eq!(id_address as usize + id_data.len(), 8);
}
