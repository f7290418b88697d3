//! Requests a host sends to the sensor.
use vstd::prelude::*;
use crate::link::wire::{
    lemma_tag_and_field, lemma_tag_only_frame, varint_bytes, wire_frame,
    WireField, WireMessage, field_bytes, fields_size_bound, lemma_payload_one, lemma_payload_two,
    postcard_take_u32, postcard_take_u64, postcard_u32_bytes, postcard_u64_bytes, read_u32,
    read_u64, wire_payload,
};

verus! {

/// The largest frame of a request: its longest postcard payload and the framing.
pub const MAX_REQUEST_SIZE: usize = Request::POSTCARD_MAX_SIZE + 2;

/// A request sent to the sensor.
#[derive(Debug, Eq, PartialEq, Structural, Clone, Copy)]
pub enum Request {
    Ping,
    GetEmbeddedTime,
    SetEmbeddedTime(u32),
    GetSensorId,
    SetSensorId(u64),
    ClearMemory,
    GetNumberofEvent,
    GetEvent(u32),
}

impl Request {
    /// The longest postcard payload of a request: one byte of variant index and a
    /// ten-byte `u64`.
    pub const POSTCARD_MAX_SIZE: usize = 11;
}

impl WireMessage for Request {
    open spec fn wire_fields(&self) -> Seq<WireField> {
        match *self {
            Request::Ping => seq![WireField::U32(0)],
            Request::GetEmbeddedTime => seq![WireField::U32(1)],
            Request::SetEmbeddedTime(t) => seq![WireField::U32(2), WireField::U32(t)],
            Request::GetSensorId => seq![WireField::U32(3)],
            Request::SetSensorId(id) => seq![WireField::U32(4), WireField::U64(id)],
            Request::ClearMemory => seq![WireField::U32(5)],
            Request::GetNumberofEvent => seq![WireField::U32(6)],
            Request::GetEvent(n) => seq![WireField::U32(7), WireField::U32(n)],
        }
    }

    open spec fn parse_wire(payload: Seq<u8>) -> Option<Self> {
        match postcard_take_u32(payload) {
            None => None,
            Some((tag, used)) => {
                let rest = payload.skip(used as int);
                if tag == 0 {
                    Some(Request::Ping)
                } else if tag == 1 {
                    Some(Request::GetEmbeddedTime)
                } else if tag == 2 {
                    match postcard_take_u32(rest) {
                        Some((t, _)) => Some(Request::SetEmbeddedTime(t)),
                        None => None,
                    }
                } else if tag == 3 {
                    Some(Request::GetSensorId)
                } else if tag == 4 {
                    match postcard_take_u64(rest) {
                        Some((id, _)) => Some(Request::SetSensorId(id)),
                        None => None,
                    }
                } else if tag == 5 {
                    Some(Request::ClearMemory)
                } else if tag == 6 {
                    Some(Request::GetNumberofEvent)
                } else if tag == 7 {
                    match postcard_take_u32(rest) {
                        Some((n, _)) => Some(Request::GetEvent(n)),
                        None => None,
                    }
                } else {
                    None
                }
            },
        }
    }

    fn fields(&self) -> (r: Vec<WireField>) {
        match *self {
            Request::Ping => vec![WireField::U32(0)],
            Request::GetEmbeddedTime => vec![WireField::U32(1)],
            Request::SetEmbeddedTime(t) => vec![WireField::U32(2), WireField::U32(t)],
            Request::GetSensorId => vec![WireField::U32(3)],
            Request::SetSensorId(id) => vec![WireField::U32(4), WireField::U64(id)],
            Request::ClearMemory => vec![WireField::U32(5)],
            Request::GetNumberofEvent => vec![WireField::U32(6)],
            Request::GetEvent(n) => vec![WireField::U32(7), WireField::U32(n)],
        }
    }

    fn parse(payload: &[u8]) -> (r: Option<Self>) {
        let r = match read_u32(payload) {
            None => None,
            Some((tag, rest)) => {
                if tag == 0 {
                    Some(Request::Ping)
                } else if tag == 1 {
                    Some(Request::GetEmbeddedTime)
                } else if tag == 2 {
                    match read_u32(rest) {
                        Some((t, _)) => Some(Request::SetEmbeddedTime(t)),
                        None => None,
                    }
                } else if tag == 3 {
                    Some(Request::GetSensorId)
                } else if tag == 4 {
                    match read_u64(rest) {
                        Some((id, _)) => Some(Request::SetSensorId(id)),
                        None => None,
                    }
                } else if tag == 5 {
                    Some(Request::ClearMemory)
                } else if tag == 6 {
                    Some(Request::GetNumberofEvent)
                } else if tag == 7 {
                    match read_u32(rest) {
                        Some((n, _)) => Some(Request::GetEvent(n)),
                        None => None,
                    }
                } else {
                    None
                }
            },
        };
        proof {
            assert forall|m: Self| payload@ == wire_payload(#[trigger] m.wire_fields()) implies r
                == Some(m) by {
                lemma_request_payload(m);
            }
        }
        r
    }

    open spec fn postcard_max_size() -> nat {
        Request::POSTCARD_MAX_SIZE as nat
    }

    proof fn lemma_fields_size(&self) {
        reveal_with_fuel(fields_size_bound, 3);
    }
}

/// The payload of a request, field by field.
proof fn lemma_request_payload(m: Request)
    ensures
        wire_payload(m.wire_fields()) == match m {
            Request::SetEmbeddedTime(t) => postcard_u32_bytes(2) + (postcard_u32_bytes(t) + Seq::<
                u8,
            >::empty()),
            Request::SetSensorId(id) => postcard_u32_bytes(4) + (postcard_u64_bytes(id) + Seq::<
                u8,
            >::empty()),
            Request::GetEvent(n) => postcard_u32_bytes(7) + (postcard_u32_bytes(n) + Seq::<
                u8,
            >::empty()),
            _ => field_bytes(m.wire_fields()[0]) + Seq::<u8>::empty(),
        },
{
    match m {
        Request::SetEmbeddedTime(t) => {
            lemma_payload_two(WireField::U32(2), WireField::U32(t));
            assert(postcard_u32_bytes(t) + Seq::<u8>::empty() =~= postcard_u32_bytes(t));
        },
        Request::SetSensorId(id) => {
            lemma_payload_two(WireField::U32(4), WireField::U64(id));
            assert(postcard_u64_bytes(id) + Seq::<u8>::empty() =~= postcard_u64_bytes(id));
        },
        Request::GetEvent(n) => {
            lemma_payload_two(WireField::U32(7), WireField::U32(n));
            assert(postcard_u32_bytes(n) + Seq::<u8>::empty() =~= postcard_u32_bytes(n));
        },
        _ => {
            lemma_payload_one(m.wire_fields()[0]);
            assert(field_bytes(m.wire_fields()[0]) + Seq::<u8>::empty() =~= field_bytes(
                m.wire_fields()[0],
            ));
            assert(m.wire_fields() =~= seq![m.wire_fields()[0]]);
        },
    }
}

/// The wire format of every request, as postcard writes the enum: the payload starts
/// with the variant's place in the declaration (`Ping` 0, `GetEmbeddedTime` 1,
/// `SetEmbeddedTime` 2, `GetSensorId` 3, `SetSensorId` 4, `ClearMemory` 5,
/// `GetNumberofEvent` 6, `GetEvent` 7), followed by the varint of its field. A request
/// without a field is framed as `[2, place, 0]`, `Ping` as `[1, 1, 0]`.
pub proof fn lemma_request_wire_format()
    ensures
        wire_payload(Request::Ping.wire_fields()) == seq![0u8],
        wire_payload(Request::GetEmbeddedTime.wire_fields()) == seq![1u8],
        forall|t: u32|
            #[trigger] wire_payload(Request::SetEmbeddedTime(t).wire_fields()) == seq![2u8]
                + varint_bytes(t as nat),
        wire_payload(Request::GetSensorId.wire_fields()) == seq![3u8],
        forall|id: u64|
            #[trigger] wire_payload(Request::SetSensorId(id).wire_fields()) == seq![4u8]
                + varint_bytes(id as nat),
        wire_payload(Request::ClearMemory.wire_fields()) == seq![5u8],
        wire_payload(Request::GetNumberofEvent.wire_fields()) == seq![6u8],
        forall|n: u32|
            #[trigger] wire_payload(Request::GetEvent(n).wire_fields()) == seq![7u8] + varint_bytes(
                n as nat,
            ),
        wire_frame(Request::Ping.wire_fields()) == seq![1u8, 1u8, 0u8],
        wire_frame(Request::GetEmbeddedTime.wire_fields()) == seq![2u8, 1u8, 0u8],
        wire_frame(Request::GetSensorId.wire_fields()) == seq![2u8, 3u8, 0u8],
        wire_frame(Request::ClearMemory.wire_fields()) == seq![2u8, 5u8, 0u8],
        wire_frame(Request::GetNumberofEvent.wire_fields()) == seq![2u8, 6u8, 0u8],
{
    lemma_tag_only_frame(0);
    lemma_tag_only_frame(1);
    lemma_tag_only_frame(3);
    lemma_tag_only_frame(5);
    lemma_tag_only_frame(6);
    assert forall|t: u32| #[trigger]
        wire_payload(Request::SetEmbeddedTime(t).wire_fields()) == seq![2u8] + varint_bytes(
            t as nat,
        ) by {
        lemma_tag_and_field(2, WireField::U32(t));
    }
    assert forall|id: u64| #[trigger]
        wire_payload(Request::SetSensorId(id).wire_fields()) == seq![4u8] + varint_bytes(
            id as nat,
        ) by {
        lemma_tag_and_field(4, WireField::U64(id));
    }
    assert forall|n: u32| #[trigger]
        wire_payload(Request::GetEvent(n).wire_fields()) == seq![7u8] + varint_bytes(n as nat) by {
        lemma_tag_and_field(7, WireField::U32(n));
    }
}

} // verus!
