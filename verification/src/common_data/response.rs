//! Responses the sensor sends back to a host.
use vstd::prelude::*;
use crate::link::wire::{
    lemma_small_varint, lemma_tag_and_field, lemma_tag_and_two_fields, lemma_tag_only_frame,
    varint_bytes, wire_frame, zig_zag,
    WireField, WireMessage, field_bytes, fields_size_bound, lemma_payload_one, lemma_payload_three,
    lemma_payload_two, postcard_i64_bytes, postcard_take_i64, postcard_take_u32, postcard_take_u64,
    postcard_u32_bytes, postcard_u64_bytes, read_i64, read_u32, read_u64, wire_payload,
};
use crate::sensor::storage::event::{Event, timestamp_of};

verus! {

/// The largest frame of a response: its longest postcard payload and the framing.
pub const MAX_RESPONSE_SIZE: usize = Response::POSTCARD_MAX_SIZE + 2;

/// A response sent back by the sensor.
#[derive(Debug, Eq, PartialEq, Structural, Clone, Copy)]
pub enum Response {
    /// The request was carried out (named `Ok` in the wire protocol's description).
    Ack,
    Error,
    NumberOfEvent(u32),
    EventInfo(Event),
    SensorId(u64),
    EmbeddedTime(u32),
}

impl Response {
    /// The longest postcard payload of a response: one byte of variant index, one of
    /// event kind and a ten-byte `i64` timestamp.
    pub const POSTCARD_MAX_SIZE: usize = 12;
}

/// The index of an event's variant, as its wire format carries it.
pub open spec fn event_variant_index(e: Event) -> u32 {
    match e {
        Event::High(_) => 0,
        Event::Low(_) => 1,
        Event::Error(_) => 2,
        Event::PwrOn(_) => 3,
    }
}

/// The event of the given variant index and timestamp, if the index is one.
pub open spec fn event_of_variant(index: u32, t: i64) -> Option<Event> {
    if index == 0 {
        Some(Event::High(t))
    } else if index == 1 {
        Some(Event::Low(t))
    } else if index == 2 {
        Some(Event::Error(t))
    } else if index == 3 {
        Some(Event::PwrOn(t))
    } else {
        None
    }
}

fn event_fields(e: Event) -> (r: (u32, i64))
    ensures
        r == (event_variant_index(e), timestamp_of(e)),
{
    match e {
        Event::High(t) => (0, t),
        Event::Low(t) => (1, t),
        Event::Error(t) => (2, t),
        Event::PwrOn(t) => (3, t),
    }
}

fn event_from_fields(index: u32, t: i64) -> (r: Option<Event>)
    ensures
        r == event_of_variant(index, t),
{
    if index == 0 {
        Some(Event::High(t))
    } else if index == 1 {
        Some(Event::Low(t))
    } else if index == 2 {
        Some(Event::Error(t))
    } else if index == 3 {
        Some(Event::PwrOn(t))
    } else {
        None
    }
}

impl WireMessage for Response {
    open spec fn wire_fields(&self) -> Seq<WireField> {
        match *self {
            Response::Ack => seq![WireField::U32(0)],
            Response::Error => seq![WireField::U32(1)],
            Response::NumberOfEvent(n) => seq![WireField::U32(2), WireField::U32(n)],
            Response::EventInfo(e) => seq![
                WireField::U32(3),
                WireField::U32(event_variant_index(e)),
                WireField::I64(timestamp_of(e)),
            ],
            Response::SensorId(id) => seq![WireField::U32(4), WireField::U64(id)],
            Response::EmbeddedTime(t) => seq![WireField::U32(5), WireField::U32(t)],
        }
    }

    open spec fn parse_wire(payload: Seq<u8>) -> Option<Self> {
        match postcard_take_u32(payload) {
            None => None,
            Some((tag, used)) => {
                let rest = payload.skip(used as int);
                if tag == 0 {
                    Some(Response::Ack)
                } else if tag == 1 {
                    Some(Response::Error)
                } else if tag == 2 {
                    match postcard_take_u32(rest) {
                        Some((n, _)) => Some(Response::NumberOfEvent(n)),
                        None => None,
                    }
                } else if tag == 3 {
                    match postcard_take_u32(rest) {
                        None => None,
                        Some((index, used2)) => match postcard_take_i64(rest.skip(used2 as int)) {
                            None => None,
                            Some((t, _)) => match event_of_variant(index, t) {
                                Some(e) => Some(Response::EventInfo(e)),
                                None => None,
                            },
                        },
                    }
                } else if tag == 4 {
                    match postcard_take_u64(rest) {
                        Some((id, _)) => Some(Response::SensorId(id)),
                        None => None,
                    }
                } else if tag == 5 {
                    match postcard_take_u32(rest) {
                        Some((t, _)) => Some(Response::EmbeddedTime(t)),
                        None => None,
                    }
                } else {
                    None
                }
            },
        }
    }

    fn fields(&self) -> (r: Vec<WireField>) {
        match *self {
            Response::Ack => vec![WireField::U32(0)],
            Response::Error => vec![WireField::U32(1)],
            Response::NumberOfEvent(n) => vec![WireField::U32(2), WireField::U32(n)],
            Response::EventInfo(e) => {
                let (index, t) = event_fields(e);
                vec![WireField::U32(3), WireField::U32(index), WireField::I64(t)]
            },
            Response::SensorId(id) => vec![WireField::U32(4), WireField::U64(id)],
            Response::EmbeddedTime(t) => vec![WireField::U32(5), WireField::U32(t)],
        }
    }

    fn parse(payload: &[u8]) -> (r: Option<Self>) {
        let r = match read_u32(payload) {
            None => None,
            Some((tag, rest)) => {
                if tag == 0 {
                    Some(Response::Ack)
                } else if tag == 1 {
                    Some(Response::Error)
                } else if tag == 2 {
                    match read_u32(rest) {
                        Some((n, _)) => Some(Response::NumberOfEvent(n)),
                        None => None,
                    }
                } else if tag == 3 {
                    match read_u32(rest) {
                        None => None,
                        Some((index, rest2)) => match read_i64(rest2) {
                            None => None,
                            Some((t, _)) => match event_from_fields(index, t) {
                                Some(e) => Some(Response::EventInfo(e)),
                                None => None,
                            },
                        },
                    }
                } else if tag == 4 {
                    match read_u64(rest) {
                        Some((id, _)) => Some(Response::SensorId(id)),
                        None => None,
                    }
                } else if tag == 5 {
                    match read_u32(rest) {
                        Some((t, _)) => Some(Response::EmbeddedTime(t)),
                        None => None,
                    }
                } else {
                    None
                }
            },
        };
        proof {
            assert forall|m: Self| payload@ == wire_payload(#[trigger] m.wire_fields()) implies r
                == Some(m) by {
                lemma_response_payload(m);
            }
        }
        r
    }

    open spec fn postcard_max_size() -> nat {
        Response::POSTCARD_MAX_SIZE as nat
    }

    proof fn lemma_fields_size(&self) {
        reveal_with_fuel(fields_size_bound, 4);
    }
}

/// The payload of a response, field by field.
proof fn lemma_response_payload(m: Response)
    ensures
        wire_payload(m.wire_fields()) == match m {
            Response::NumberOfEvent(n) => postcard_u32_bytes(2) + (postcard_u32_bytes(n) + Seq::<
                u8,
            >::empty()),
            Response::EventInfo(e) => postcard_u32_bytes(3) + (postcard_u32_bytes(
                event_variant_index(e),
            ) + (postcard_i64_bytes(timestamp_of(e)) + Seq::<u8>::empty())),
            Response::SensorId(id) => postcard_u32_bytes(4) + (postcard_u64_bytes(id) + Seq::<
                u8,
            >::empty()),
            Response::EmbeddedTime(t) => postcard_u32_bytes(5) + (postcard_u32_bytes(t) + Seq::<
                u8,
            >::empty()),
            _ => field_bytes(m.wire_fields()[0]) + Seq::<u8>::empty(),
        },
{
    match m {
        Response::NumberOfEvent(n) => {
            lemma_payload_two(WireField::U32(2), WireField::U32(n));
            assert(postcard_u32_bytes(n) + Seq::<u8>::empty() =~= postcard_u32_bytes(n));
        },
        Response::EventInfo(e) => {
            let c = postcard_i64_bytes(timestamp_of(e));
            lemma_payload_three(
                WireField::U32(3),
                WireField::U32(event_variant_index(e)),
                WireField::I64(timestamp_of(e)),
            );
            assert(c + Seq::<u8>::empty() =~= c);
        },
        Response::SensorId(id) => {
            lemma_payload_two(WireField::U32(4), WireField::U64(id));
            assert(postcard_u64_bytes(id) + Seq::<u8>::empty() =~= postcard_u64_bytes(id));
        },
        Response::EmbeddedTime(t) => {
            lemma_payload_two(WireField::U32(5), WireField::U32(t));
            assert(postcard_u32_bytes(t) + Seq::<u8>::empty() =~= postcard_u32_bytes(t));
        },
        _ => {
            lemma_payload_one(m.wire_fields()[0]);
            assert(field_bytes(m.wire_fields()[0]) + Seq::<u8>::empty() =~= field_bytes(
                m.wire_fields()[0],
            ));
            assert(m.wire_fields() =~= seq![m.wire_fields()[0]]);
        },
    }
}

/// The wire format of every response, as postcard writes the enum: the payload starts
/// with the variant's place in the declaration (`Ok`, here `Ack`, 0, `Error` 1,
/// `NumberOfEvent` 2, `EventInfo` 3, `SensorId` 4, `EmbeddedTime` 5), followed by the
/// varints of its fields; an event is the place of its kind (`High` 0, `Low` 1, `Error`
/// 2, `PwrOn` 3), then the zig-zag varint of its timestamp. `Ok` is framed as
/// `[1, 1, 0]`, `Error` as `[2, 1, 0]`.
pub proof fn lemma_response_wire_format()
    ensures
        wire_payload(Response::Ack.wire_fields()) == seq![0u8],
        wire_payload(Response::Error.wire_fields()) == seq![1u8],
        forall|n: u32|
            #[trigger] wire_payload(Response::NumberOfEvent(n).wire_fields()) == seq![2u8]
                + varint_bytes(n as nat),
        forall|t: i64|
            #[trigger] wire_payload(Response::EventInfo(Event::High(t)).wire_fields()) == seq![
                3u8,
                0u8,
            ] + varint_bytes(zig_zag(t)),
        forall|t: i64|
            #[trigger] wire_payload(Response::EventInfo(Event::Low(t)).wire_fields()) == seq![
                3u8,
                1u8,
            ] + varint_bytes(zig_zag(t)),
        forall|t: i64|
            #[trigger] wire_payload(Response::EventInfo(Event::Error(t)).wire_fields()) == seq![
                3u8,
                2u8,
            ] + varint_bytes(zig_zag(t)),
        forall|t: i64|
            #[trigger] wire_payload(Response::EventInfo(Event::PwrOn(t)).wire_fields()) == seq![
                3u8,
                3u8,
            ] + varint_bytes(zig_zag(t)),
        forall|id: u64|
            #[trigger] wire_payload(Response::SensorId(id).wire_fields()) == seq![4u8] + varint_bytes(
                id as nat,
            ),
        forall|t: u32|
            #[trigger] wire_payload(Response::EmbeddedTime(t).wire_fields()) == seq![5u8]
                + varint_bytes(t as nat),
        wire_frame(Response::Ack.wire_fields()) == seq![1u8, 1u8, 0u8],
        wire_frame(Response::Error.wire_fields()) == seq![2u8, 1u8, 0u8],
{
    lemma_tag_only_frame(0);
    lemma_tag_only_frame(1);
    assert forall|n: u32| #[trigger]
        wire_payload(Response::NumberOfEvent(n).wire_fields()) == seq![2u8] + varint_bytes(
            n as nat,
        ) by {
        lemma_tag_and_field(2, WireField::U32(n));
    }
    assert forall|e: Event| #[trigger]
        wire_payload(Response::EventInfo(e).wire_fields()) == seq![3u8, event_variant_index(e) as u8]
            + varint_bytes(zig_zag(timestamp_of(e))) by {
        lemma_tag_and_two_fields(3, WireField::U32(event_variant_index(e)), WireField::I64(timestamp_of(e)));
        lemma_small_varint(event_variant_index(e));
        assert(seq![3u8] + seq![event_variant_index(e) as u8] =~= seq![3u8, event_variant_index(e) as u8]);
    }
    assert forall|t: i64| #[trigger]
        wire_payload(Response::EventInfo(Event::High(t)).wire_fields()) == seq![3u8, 0u8]
            + varint_bytes(zig_zag(t)) by {
        assert(wire_payload(Response::EventInfo(Event::High(t)).wire_fields()) == seq![3u8, event_variant_index(Event::High(t)) as u8] + varint_bytes(zig_zag(timestamp_of(Event::High(t)))));
    }
    assert forall|t: i64| #[trigger]
        wire_payload(Response::EventInfo(Event::Low(t)).wire_fields()) == seq![3u8, 1u8]
            + varint_bytes(zig_zag(t)) by {
        assert(wire_payload(Response::EventInfo(Event::Low(t)).wire_fields()) == seq![3u8, event_variant_index(Event::Low(t)) as u8] + varint_bytes(zig_zag(timestamp_of(Event::Low(t)))));
    }
    assert forall|t: i64| #[trigger]
        wire_payload(Response::EventInfo(Event::Error(t)).wire_fields()) == seq![3u8, 2u8]
            + varint_bytes(zig_zag(t)) by {
        assert(wire_payload(Response::EventInfo(Event::Error(t)).wire_fields()) == seq![3u8, event_variant_index(Event::Error(t)) as u8] + varint_bytes(zig_zag(timestamp_of(Event::Error(t)))));
    }
    assert forall|t: i64| #[trigger]
        wire_payload(Response::EventInfo(Event::PwrOn(t)).wire_fields()) == seq![3u8, 3u8]
            + varint_bytes(zig_zag(t)) by {
        assert(wire_payload(Response::EventInfo(Event::PwrOn(t)).wire_fields()) == seq![3u8, event_variant_index(Event::PwrOn(t)) as u8] + varint_bytes(zig_zag(timestamp_of(Event::PwrOn(t)))));
    }
    assert forall|id: u64| #[trigger]
        wire_payload(Response::SensorId(id).wire_fields()) == seq![4u8] + varint_bytes(id as nat) by {
        lemma_tag_and_field(4, WireField::U64(id));
    }
    assert forall|t: u32| #[trigger]
        wire_payload(Response::EmbeddedTime(t).wire_fields()) == seq![5u8] + varint_bytes(t as nat) by {
        lemma_tag_and_field(5, WireField::U32(t));
    }
}

} // verus!
