//! The requests a host sends to the sensor and the responses it gets back.
use vstd::prelude::*;
use crate::link::event::{Event, EventType, event_type_index, event_type_of_index};
use crate::link::bus_message::BusMessage;
use crate::link::convertion::{MAX_OBJECT_SIZE, decode_request, encode_data, is_object_complete};
use crate::link::wire::{
    lemma_small_varint, lemma_tag_and_field, lemma_tag_and_two_fields, lemma_tag_only_frame,
    varint_bytes,
    frame_buffer_bytes, wire_frame,
    WireField, WireMessage, field_bytes, fields_size_bound, lemma_payload_one, lemma_payload_three, lemma_payload_two, postcard_take_u32, postcard_take_u64, postcard_u32_bytes, postcard_u64_bytes, read_u32, read_u64, wire_payload,
};

verus! {

/// A request sent to the sensor.
#[derive(Debug, PartialEq, Eq, Structural, Clone, Copy)]
pub enum Request {
    GetEmbeddedTime,
    SetEmbeddedTime(u64),
    ClearMemory,
    GetNumberofEvent,
    GetEvent(u32),
}

/// A response sent back by the sensor.
#[derive(Debug, PartialEq, Eq, Structural, Clone, Copy)]
pub enum Response {
    /// The request was carried out (named `Ok` in the wire protocol's description).
    Ack,
    Error,
    Eventinfo(Event),
    CurrentTime(u64),
}

impl Request {
    /// The longest postcard payload of a request: one byte of variant index and a
    /// ten-byte `u64`.
    pub const POSTCARD_MAX_SIZE: usize = 11;
}

impl Response {
    /// The longest postcard payload of a response: one byte of variant index and a
    /// ten-byte `u64`.
    pub const POSTCARD_MAX_SIZE: usize = 11;
}

impl WireMessage for Request {
    open spec fn wire_fields(&self) -> Seq<WireField> {
        match *self {
            Request::GetEmbeddedTime => seq![WireField::U32(0)],
            Request::SetEmbeddedTime(t) => seq![WireField::U32(1), WireField::U64(t)],
            Request::ClearMemory => seq![WireField::U32(2)],
            Request::GetNumberofEvent => seq![WireField::U32(3)],
            Request::GetEvent(n) => seq![WireField::U32(4), WireField::U32(n)],
        }
    }

    open spec fn parse_wire(payload: Seq<u8>) -> Option<Self> {
        match postcard_take_u32(payload) {
            None => None,
            Some((tag, used)) => {
                let rest = payload.skip(used as int);
                if tag == 0 {
                    Some(Request::GetEmbeddedTime)
                } else if tag == 1 {
                    match postcard_take_u64(rest) {
                        Some((t, _)) => Some(Request::SetEmbeddedTime(t)),
                        None => None,
                    }
                } else if tag == 2 {
                    Some(Request::ClearMemory)
                } else if tag == 3 {
                    Some(Request::GetNumberofEvent)
                } else if tag == 4 {
                    match postcard_take_u32(rest) {
                        Some((n, _)) => Some(Request::GetEvent(n)),
                        None => None,
                    }
                } else {
                    None
                }
            },
        }
    }

    fn fields(&self) -> (r: Vec<WireField>) {
        match *self {
            Request::GetEmbeddedTime => vec![WireField::U32(0)],
            Request::SetEmbeddedTime(t) => vec![WireField::U32(1), WireField::U64(t)],
            Request::ClearMemory => vec![WireField::U32(2)],
            Request::GetNumberofEvent => vec![WireField::U32(3)],
            Request::GetEvent(n) => vec![WireField::U32(4), WireField::U32(n)],
        }
    }

    fn parse(payload: &[u8]) -> (r: Option<Self>) {
        let r = match read_u32(payload) {
            None => None,
            Some((tag, rest)) => {
                if tag == 0 {
                    Some(Request::GetEmbeddedTime)
                } else if tag == 1 {
                    match read_u64(rest) {
                        Some((t, _)) => Some(Request::SetEmbeddedTime(t)),
                        None => None,
                    }
                } else if tag == 2 {
                    Some(Request::ClearMemory)
                } else if tag == 3 {
                    Some(Request::GetNumberofEvent)
                } else if tag == 4 {
                    match read_u32(rest) {
                        Some((n, _)) => Some(Request::GetEvent(n)),
                        None => None,
                    }
                } else {
                    None
                }
            },
        };
        proof {
            assert forall|m: Self| payload@ == wire_payload(#[trigger] m.wire_fields()) implies r
                == Some(m) by {
                lemma_request_payload(m);
            }
        }
        r
    }

    open spec fn postcard_max_size() -> nat {
        Request::POSTCARD_MAX_SIZE as nat
    }

    proof fn lemma_fields_size(&self) {
        reveal_with_fuel(fields_size_bound, 3);
    }
}

impl WireMessage for Response {
    open spec fn wire_fields(&self) -> Seq<WireField> {
        match *self {
            Response::Ack => seq![WireField::U32(0)],
            Response::Error => seq![WireField::U32(1)],
            Response::Eventinfo(e) => seq![
                WireField::U32(2),
                WireField::U32(e.timestamp),
                WireField::U32(event_type_index(e.event_type)),
            ],
            Response::CurrentTime(t) => seq![WireField::U32(3), WireField::U64(t)],
        }
    }

    open spec fn parse_wire(payload: Seq<u8>) -> Option<Self> {
        match postcard_take_u32(payload) {
            None => None,
            Some((tag, used)) => {
                let rest = payload.skip(used as int);
                if tag == 0 {
                    Some(Response::Ack)
                } else if tag == 1 {
                    Some(Response::Error)
                } else if tag == 2 {
                    match postcard_take_u32(rest) {
                        None => None,
                        Some((timestamp, used2)) => match postcard_take_u32(
                            rest.skip(used2 as int),
                        ) {
                            None => None,
                            Some((index, _)) => match event_type_of_index(index) {
                                Some(event_type) => Some(
                                    Response::Eventinfo(Event { timestamp, event_type }),
                                ),
                                None => None,
                            },
                        },
                    }
                } else if tag == 3 {
                    match postcard_take_u64(rest) {
                        Some((t, _)) => Some(Response::CurrentTime(t)),
                        None => None,
                    }
                } else {
                    None
                }
            },
        }
    }

    fn fields(&self) -> (r: Vec<WireField>) {
        match *self {
            Response::Ack => vec![WireField::U32(0)],
            Response::Error => vec![WireField::U32(1)],
            Response::Eventinfo(e) => vec![
                WireField::U32(2),
                WireField::U32(e.timestamp),
                WireField::U32(e.event_type.index()),
            ],
            Response::CurrentTime(t) => vec![WireField::U32(3), WireField::U64(t)],
        }
    }

    fn parse(payload: &[u8]) -> (r: Option<Self>) {
        let r = match read_u32(payload) {
            None => None,
            Some((tag, rest)) => {
                if tag == 0 {
                    Some(Response::Ack)
                } else if tag == 1 {
                    Some(Response::Error)
                } else if tag == 2 {
                    match read_u32(rest) {
                        None => None,
                        Some((timestamp, rest2)) => match read_u32(rest2) {
                            None => None,
                            Some((index, _)) => match EventType::from_index(index) {
                                Some(event_type) => Some(
                                    Response::Eventinfo(Event { timestamp, event_type }),
                                ),
                                None => None,
                            },
                        },
                    }
                } else if tag == 3 {
                    match read_u64(rest) {
                        Some((t, _)) => Some(Response::CurrentTime(t)),
                        None => None,
                    }
                } else {
                    None
                }
            },
        };
        proof {
            assert forall|m: Self| payload@ == wire_payload(#[trigger] m.wire_fields()) implies r
                == Some(m) by {
                lemma_response_payload(m);
            }
        }
        r
    }

    open spec fn postcard_max_size() -> nat {
        Response::POSTCARD_MAX_SIZE as nat
    }

    proof fn lemma_fields_size(&self) {
        reveal_with_fuel(fields_size_bound, 4);
    }
}

/// The payload of a response, field by field.
proof fn lemma_response_payload(m: Response)
    ensures
        wire_payload(m.wire_fields()) == match m {
            Response::Ack => postcard_u32_bytes(0) + Seq::<u8>::empty(),
            Response::Error => postcard_u32_bytes(1) + Seq::<u8>::empty(),
            Response::Eventinfo(e) => postcard_u32_bytes(2) + (postcard_u32_bytes(e.timestamp) + (
            postcard_u32_bytes(event_type_index(e.event_type)) + Seq::<u8>::empty())),
            Response::CurrentTime(t) => postcard_u32_bytes(3) + (postcard_u64_bytes(t) + Seq::<
                u8,
            >::empty()),
        },
{
    match m {
        Response::Eventinfo(e) => {
            let c = postcard_u32_bytes(event_type_index(e.event_type));
            lemma_payload_three(
                WireField::U32(2),
                WireField::U32(e.timestamp),
                WireField::U32(event_type_index(e.event_type)),
            );
            assert(c + Seq::<u8>::empty() =~= c);
        },
        Response::CurrentTime(t) => {
            lemma_payload_two(WireField::U32(3), WireField::U64(t));
            assert(postcard_u64_bytes(t) + Seq::<u8>::empty() =~= postcard_u64_bytes(t));
        },
        _ => {
            lemma_payload_one(m.wire_fields()[0]);
            assert(field_bytes(m.wire_fields()[0]) + Seq::<u8>::empty() =~= field_bytes(
                m.wire_fields()[0],
            ));
            assert(m.wire_fields() =~= seq![m.wire_fields()[0]]);
        },
    }
}

impl BusMessage<MAX_OBJECT_SIZE> for Request {
    fn is_message_complete(data: &[u8]) -> (r: bool) {
        let n = data.len();
        if n == 0 {
            false
        } else {
            data[n - 1] == 0x00u8
        }
    }

    fn decode(data: &mut [u8]) -> (r: Option<Self>) {
        decode_request(data)
    }

    fn decode_request_if_complete(data: &mut [u8]) -> (r: Option<Self>) {
        if is_object_complete(data) {
            decode_request(data)
        } else {
            None
        }
    }

    fn encode_message(&self) -> (r: Result<heapless::Vec<u8, MAX_OBJECT_SIZE>, ()>)
        ensures
            r is Ok,
            r matches Ok(v) ==> frame_buffer_bytes(v) == wire_frame(self.wire_fields()),
    {
        encode_data(*self)
    }
}

/// The payload of a request, field by field.
proof fn lemma_request_payload(m: Request)
    ensures
        wire_payload(m.wire_fields()) == match m {
            Request::GetEmbeddedTime => postcard_u32_bytes(0) + Seq::<u8>::empty(),
            Request::SetEmbeddedTime(t) => postcard_u32_bytes(1) + (postcard_u64_bytes(t) + Seq::<
                u8,
            >::empty()),
            Request::ClearMemory => postcard_u32_bytes(2) + Seq::<u8>::empty(),
            Request::GetNumberofEvent => postcard_u32_bytes(3) + Seq::<u8>::empty(),
            Request::GetEvent(n) => postcard_u32_bytes(4) + (postcard_u32_bytes(n) + Seq::<
                u8,
            >::empty()),
        },
{
    match m {
        Request::SetEmbeddedTime(t) => {
            lemma_payload_two(WireField::U32(1), WireField::U64(t));
            assert(postcard_u64_bytes(t) + Seq::<u8>::empty() =~= postcard_u64_bytes(t));
        },
        Request::GetEvent(n) => {
            lemma_payload_two(WireField::U32(4), WireField::U32(n));
            assert(postcard_u32_bytes(n) + Seq::<u8>::empty() =~= postcard_u32_bytes(n));
        },
        _ => {
            lemma_payload_one(m.wire_fields()[0]);
            assert(field_bytes(m.wire_fields()[0]) + Seq::<u8>::empty() =~= field_bytes(
                m.wire_fields()[0],
            ));
            assert(m.wire_fields() =~= seq![m.wire_fields()[0]]);
        },
    }
}

/// The wire format of every request of the link, as postcard writes the enum: the
/// payload starts with the variant's place in the declaration (`GetEmbeddedTime` 0,
/// `SetEmbeddedTime` 1, `ClearMemory` 2, `GetNumberofEvent` 3, `GetEvent` 4), followed
/// by the varint of its field. A request without a field is framed as
/// `[2, place, 0]`, `GetEmbeddedTime` as `[1, 1, 0]`.
pub proof fn lemma_link_request_wire_format()
    ensures
        wire_payload(Request::GetEmbeddedTime.wire_fields()) == seq![0u8],
        forall|t: u64|
            #[trigger] wire_payload(Request::SetEmbeddedTime(t).wire_fields()) == seq![1u8]
                + varint_bytes(t as nat),
        wire_payload(Request::ClearMemory.wire_fields()) == seq![2u8],
        wire_payload(Request::GetNumberofEvent.wire_fields()) == seq![3u8],
        forall|n: u32|
            #[trigger] wire_payload(Request::GetEvent(n).wire_fields()) == seq![4u8] + varint_bytes(
                n as nat,
            ),
        wire_frame(Request::GetEmbeddedTime.wire_fields()) == seq![1u8, 1u8, 0u8],
        wire_frame(Request::ClearMemory.wire_fields()) == seq![2u8, 2u8, 0u8],
        wire_frame(Request::GetNumberofEvent.wire_fields()) == seq![2u8, 3u8, 0u8],
{
    lemma_tag_only_frame(0);
    lemma_tag_only_frame(2);
    lemma_tag_only_frame(3);
    assert forall|t: u64| #[trigger]
        wire_payload(Request::SetEmbeddedTime(t).wire_fields()) == seq![1u8] + varint_bytes(
            t as nat,
        ) by {
        lemma_tag_and_field(1, WireField::U64(t));
    }
    assert forall|n: u32| #[trigger]
        wire_payload(Request::GetEvent(n).wire_fields()) == seq![4u8] + varint_bytes(n as nat) by {
        lemma_tag_and_field(4, WireField::U32(n));
    }
}

/// The wire format of every response of the link: the payload starts with the
/// variant's place in the declaration (`Ok`, here `Ack`, 0, `Error` 1, `Eventinfo` 2,
/// `CurrentTime` 3), followed by its fields; an event is the varint of its timestamp,
/// then the place of its type (`High` 0, `Low` 1, `Alive` 2). `Ok` is framed as
/// `[1, 1, 0]`, `Error` as `[2, 1, 0]`.
pub proof fn lemma_link_response_wire_format()
    ensures
        wire_payload(Response::Ack.wire_fields()) == seq![0u8],
        wire_payload(Response::Error.wire_fields()) == seq![1u8],
        forall|t: u32|
            #[trigger] wire_payload(
                Response::Eventinfo(Event { timestamp: t, event_type: EventType::High }).wire_fields(),
            ) == seq![2u8] + varint_bytes(t as nat) + seq![0u8],
        forall|t: u32|
            #[trigger] wire_payload(
                Response::Eventinfo(Event { timestamp: t, event_type: EventType::Low }).wire_fields(),
            ) == seq![2u8] + varint_bytes(t as nat) + seq![1u8],
        forall|t: u32|
            #[trigger] wire_payload(
                Response::Eventinfo(Event { timestamp: t, event_type: EventType::Alive }).wire_fields(),
            ) == seq![2u8] + varint_bytes(t as nat) + seq![2u8],
        forall|t: u64|
            #[trigger] wire_payload(Response::CurrentTime(t).wire_fields()) == seq![3u8]
                + varint_bytes(t as nat),
        wire_frame(Response::Ack.wire_fields()) == seq![1u8, 1u8, 0u8],
        wire_frame(Response::Error.wire_fields()) == seq![2u8, 1u8, 0u8],
{
    lemma_tag_only_frame(0);
    lemma_tag_only_frame(1);
    assert forall|e: Event| #[trigger] wire_payload(Response::Eventinfo(e).wire_fields()) == seq![
        2u8,
    ] + varint_bytes(e.timestamp as nat) + seq![event_type_index(e.event_type) as u8] by {
        lemma_tag_and_two_fields(
            2,
            WireField::U32(e.timestamp),
            WireField::U32(event_type_index(e.event_type)),
        );
        lemma_small_varint(event_type_index(e.event_type));
    }
    assert forall|t: u64| #[trigger]
        wire_payload(Response::CurrentTime(t).wire_fields()) == seq![3u8] + varint_bytes(t as nat) by {
        lemma_tag_and_field(3, WireField::U64(t));
    }
}

} // verus!
