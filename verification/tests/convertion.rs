use link_lib::link::convertion::{decode_response_if_complete, encode_data, MAX_OBJECT_SIZE};
use link_lib::link::event::{Event, EventType};
use link_lib::link::messages_enums::{Request, Response};

#[test]
fn encoding_decoding_response_success() {
    let response = Response::Eventinfo(Event { timestamp: 102654646, event_type: EventType::High });
    let mut encoded = encode_data(response).unwrap();
    let converted_back = decode_response_if_complete(&mut encoded).unwrap();
    assert_eq!(response, converted_back);
}

#[test]
fn encoding_decoding_response_fail() {
    let response = Response::Eventinfo(Event { timestamp: 102654646, event_type: EventType::High });
    let mut encoded = encode_data(response).unwrap();
    let last = encoded.last_mut().unwrap();
    *last += 1;
    let converted_back = decode_response_if_complete(&mut encoded);
    assert_eq!(converted_back, None);
}

#[test]
fn size_test_response() {
    let response = Response::Eventinfo(Event { timestamp: u32::MAX, event_type: EventType::Alive });
    let encoded = encode_data(response).unwrap();
    assert!(encoded.len() < MAX_OBJECT_SIZE)
}

#[test]
fn size_test_request() {
    assert!(Request::POSTCARD_MAX_SIZE <= MAX_OBJECT_SIZE)
}
