use link_lib::common_data::request::{Request as SensorRequest, MAX_REQUEST_SIZE};
use link_lib::common_data::response::{Response as SensorResponse, MAX_RESPONSE_SIZE as SENSOR_MAX_RESPONSE_SIZE};
use link_lib::link::bus_message::BusMessage;
use link_lib::link::convertion::{
    decode_object_if_complete, decode_request, decode_request_if_complete, decode_response,
    encode_data, is_object_complete, max, COBS_OVERHEAD_SIZE, MAX_OBJECT_SIZE,
};
use link_lib::link::error::{request_from_feed, FeedOutcome, MyError};
use link_lib::link::event::{Event, EventType};
use link_lib::link::input_buffer::RequestBuffer;
use link_lib::link::messages_enums::{Request, Response};
use link_lib::link::response::{Response as BusResponse, MAX_RESPONSE_SIZE};
use link_lib::sensor::storage::event::Event as LogEvent;

#[test]
fn frame_of_event_response_is_exact() {
    let response = Response::Eventinfo(Event { timestamp: 102654646, event_type: EventType::High });
    let encoded = encode_data(response).unwrap();
    assert_eq!(&encoded[..], &[6, 2, 182, 197, 249, 48, 1, 0]);
}

#[test]
fn frame_of_ack_is_exact() {
    let encoded = encode_data(Response::Ack).unwrap();
    assert_eq!(&encoded[..], &[1, 1, 0]);
}

#[test]
fn frame_of_current_time_is_exact() {
    let encoded = encode_data(Response::CurrentTime(0x12_3456_7890)).unwrap();
    assert_eq!(&encoded[..], &[8, 3, 144, 241, 217, 162, 163, 2, 0]);
}

#[test]
fn frame_of_get_event_is_exact() {
    let encoded = encode_data(Request::GetEvent(300)).unwrap();
    assert_eq!(&encoded[..], &[4, 4, 172, 2, 0]);
}

#[test]
fn frame_of_largest_event_response() {
    let response = Response::Eventinfo(Event { timestamp: u32::MAX, event_type: EventType::Alive });
    let encoded = encode_data(response).unwrap();
    assert_eq!(&encoded[..], &[8, 2, 255, 255, 255, 255, 15, 2, 0]);
}

#[test]
fn every_response_round_trips() {
    let all = [
        Response::Ack,
        Response::Error,
        Response::Eventinfo(Event { timestamp: 0, event_type: EventType::Low }),
        Response::Eventinfo(Event { timestamp: u32::MAX, event_type: EventType::Alive }),
        Response::CurrentTime(0),
        Response::CurrentTime(u64::MAX),
    ];
    for response in all {
        let mut encoded = encode_data(response).unwrap();
        assert!(encoded.len() <= MAX_OBJECT_SIZE);
        assert_eq!(decode_response(&mut encoded), Some(response));
    }
}

#[test]
fn every_request_round_trips() {
    let all = [
        Request::GetEmbeddedTime,
        Request::SetEmbeddedTime(u64::MAX),
        Request::ClearMemory,
        Request::GetNumberofEvent,
        Request::GetEvent(0),
        Request::GetEvent(u32::MAX),
    ];
    for request in all {
        let mut encoded = encode_data(request).unwrap();
        assert_eq!(decode_request_if_complete(&mut encoded), Some(request));
    }
}

#[test]
fn sensor_protocol_round_trips() {
    let requests = [
        SensorRequest::Ping,
        SensorRequest::GetEmbeddedTime,
        SensorRequest::SetEmbeddedTime(1_704_067_200),
        SensorRequest::GetSensorId,
        SensorRequest::SetSensorId(0xDEAD_BEEF_0000_0001),
        SensorRequest::ClearMemory,
        SensorRequest::GetNumberofEvent,
        SensorRequest::GetEvent(7),
    ];
    for request in requests {
        let mut encoded = encode_data(request).unwrap();
        assert!(encoded.len() <= MAX_REQUEST_SIZE);
        assert!(decode_object_if_complete::<SensorRequest>(&mut encoded) == Some(request));
    }
    let responses = [
        SensorResponse::Ack,
        SensorResponse::Error,
        SensorResponse::NumberOfEvent(12),
        SensorResponse::EventInfo(LogEvent::High(1_704_067_200)),
        SensorResponse::EventInfo(LogEvent::PwrOn(-5)),
        SensorResponse::SensorId(42),
        SensorResponse::EmbeddedTime(99),
    ];
    for response in responses {
        let mut encoded = encode_data(response).unwrap();
        assert!(decode_object_if_complete::<SensorResponse>(&mut encoded) == Some(response));
    }
    assert_eq!(MAX_REQUEST_SIZE, 13);
    assert_eq!(SENSOR_MAX_RESPONSE_SIZE, 14);
}

#[test]
fn sensor_event_info_frame_is_exact() {
    let encoded = encode_data(SensorResponse::EventInfo(LogEvent::High(1_704_067_200))).unwrap();
    assert_eq!(&encoded[..], &[2, 3, 6, 128, 130, 144, 217, 12, 0]);
}

#[test]
fn sensor_response_with_huge_timestamp_does_not_fit() {
    assert!(encode_data(SensorResponse::EventInfo(LogEvent::Low(i64::MIN))).is_err());
}

#[test]
fn incomplete_frame_is_left_alone() {
    let mut data = [6u8, 2, 182, 197, 249, 48, 1];
    assert!(!is_object_complete(&mut data));
    assert_eq!(decode_request_if_complete(&mut data), None);
    assert_eq!(data, [6u8, 2, 182, 197, 249, 48, 1]);
    let mut empty: [u8; 0] = [];
    assert!(!is_object_complete(&mut empty));
}

#[test]
fn decoding_rewrites_the_buffer_in_place() {
    let mut data = [6u8, 2, 182, 197, 249, 48, 1, 0];
    let decoded = decode_response(&mut data);
    assert_eq!(decoded, Some(Response::Eventinfo(Event { timestamp: 102654646, event_type: EventType::High })));
    assert_eq!(&data[..6], &[2, 182, 197, 249, 48, 0]);
}

#[test]
fn unknown_variant_does_not_decode() {
    let mut data = [2u8, 9, 0];
    assert_eq!(decode_response(&mut data), None);
    let mut data = [2u8, 5, 0];
    assert_eq!(decode_request(&mut data), None);
}

#[test]
fn truncated_payload_does_not_decode() {
    let mut data = [3u8, 2, 182, 0];
    assert_eq!(decode_response(&mut data), None);
}

#[test]
fn bad_event_type_does_not_decode() {
    let mut data = [4u8, 2, 5, 3, 0];
    assert_eq!(decode_response(&mut data), None);
}

#[test]
fn bad_cobs_frame_does_not_decode() {
    let mut data = [9u8, 1, 0];
    assert_eq!(decode_response(&mut data), None);
}

#[test]
fn frame_sizes() {
    assert_eq!(max(3, 7), 7);
    assert_eq!(max(7, 3), 7);
    assert_eq!(MAX_OBJECT_SIZE, max(Response::POSTCARD_MAX_SIZE, Request::POSTCARD_MAX_SIZE) + COBS_OVERHEAD_SIZE);
    assert_eq!(MAX_RESPONSE_SIZE, 13);
}

#[test]
fn bus_response_round_trips() {
    let response = BusResponse::CurrentTime(1234);
    let mut encoded = response.encode_message().unwrap();
    assert!(<BusResponse as BusMessage<MAX_RESPONSE_SIZE>>::is_message_complete(&encoded));
    assert_eq!(<BusResponse as BusMessage<MAX_RESPONSE_SIZE>>::decode_request_if_complete(&mut encoded), Some(response));
    let request = Request::GetEvent(3);
    let mut encoded = request.encode_message().unwrap();
    assert_eq!(<Request as BusMessage<MAX_OBJECT_SIZE>>::decode(&mut encoded), Some(request));
}

#[test]
fn buffer_receives_a_frame_byte_by_byte() {
    let mut buffer = RequestBuffer::<16>::new();
    let frame = [4u8, 4, 172, 2, 0];
    for byte in &frame[..4] {
        assert_eq!(buffer.add_byte_and_check_for_request(byte), Ok(None));
    }
    assert_eq!(buffer.add_byte_and_check_for_request(&frame[4]), Ok(Some(Request::GetEvent(300))));
    assert_eq!(buffer.len(), 5);
    buffer.clear_buffer();
    assert_eq!(buffer.len(), 0);
    for byte in [8u8, 3, 144, 241, 217, 162, 163, 2, 0] {
        let r = buffer.add_byte_and_check_for_response(&byte);
        if byte == 0 {
            assert_eq!(r, Ok(Some(BusResponse::CurrentTime(0x12_3456_7890))));
        } else {
            assert_eq!(r, Ok(None));
        }
    }
}

#[test]
fn full_buffer_refuses_bytes() {
    let mut buffer = RequestBuffer::<2>::new();
    assert_eq!(buffer.add_byte(&1), Ok(()));
    assert_eq!(buffer.add_byte(&2), Ok(()));
    assert_eq!(buffer.add_byte(&3), Err(()));
    assert_eq!(buffer.add_byte_and_check_for_request(&0), Err(()));
    assert_eq!(buffer.as_slice(), &[1, 2]);
}

#[test]
fn feed_outcomes_map_to_link_results() {
    assert!(matches!(request_from_feed::<u8, ()>(FeedOutcome::Consumed), Ok(None)));
    assert!(matches!(request_from_feed::<u8, ()>(FeedOutcome::OverFull), Err(MyError::BufferFull)));
    assert!(matches!(request_from_feed::<u8, ()>(FeedOutcome::DeserError), Err(MyError::Deserialize)));
    assert!(matches!(request_from_feed::<u8, ()>(FeedOutcome::Success(7)), Ok(Some(7))));
}
