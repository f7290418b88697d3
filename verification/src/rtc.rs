//! The event record of the first firmware: a timestamp and the kind of event, stored
//! in five bytes.
use vstd::prelude::*;
use crate::link::event::{be_bytes_u32, lemma_be_u32_roundtrip, u32_from_be_bytes, u32_of_be_bytes, u32_to_be_bytes};

verus! {

/// Kind of a light event. Its byte is 1 for `High`, 2 for `Low` and 3 for `Alive`:
/// take it with `code()` (a cast with `as u8` gives the variant's position, from 0).
#[derive(Copy, Clone)]
pub enum EventType {
    High,
    Low,
    Alive,
}

/// A light event: when it happened and what kind it is.
pub struct Event {
    pub timestamp: u32,
    pub event_type: EventType,
}

/// The byte that stands for an event type: 1, 2 or 3.
pub open spec fn event_type_code(t: EventType) -> u8 {
    match t {
        EventType::High => 1,
        EventType::Low => 2,
        EventType::Alive => 3,
    }
}

/// The event type that a byte stands for, if any.
pub open spec fn event_type_of_code(value: u8) -> Option<EventType> {
    if value == 1 {
        Some(EventType::High)
    } else if value == 2 {
        Some(EventType::Low)
    } else if value == 3 {
        Some(EventType::Alive)
    } else {
        None
    }
}

/// The five bytes that store an event: the timestamp big-endian, then the code of its type.
pub open spec fn event_bytes(e: Event) -> Seq<u8> {
    be_bytes_u32(e.timestamp).push(event_type_code(e.event_type))
}

impl EventType {
    /// The byte that stands for this event type.
    pub fn code(self) -> (r: u8)
        ensures
            r == event_type_code(self),
    {
        match self {
            EventType::High => 1,
            EventType::Low => 2,
            EventType::Alive => 3,
        }
    }
}

impl vstd::std_specs::convert::TryFromSpecImpl<u8> for EventType {
    open spec fn obeys_try_from_spec() -> bool {
        true
    }

    open spec fn try_from_spec(value: u8) -> Result<Self, ()> {
        match event_type_of_code(value) {
            Some(t) => Ok(t),
            None => Err(()),
        }
    }
}

impl TryFrom<u8> for EventType {
    type Error = ();

    fn try_from(value: u8) -> (r: Result<Self, ()>) {
        match value {
            1 => Ok(Self::High),
            2 => Ok(Self::Low),
            3 => Ok(Self::Alive),
            _ => Err(()),
        }
    }
}

impl Event {
    /// The timestamp big-endian, then the code of the event type.
    pub fn to_be_bytes(&self) -> (r: [u8; 5])
        ensures
            r@ == event_bytes(*self),
    {
        let ts = u32_to_be_bytes(self.timestamp);
        let r = [ts[0], ts[1], ts[2], ts[3], self.event_type.code()];
        assert(r@ =~= event_bytes(*self));
        r
    }

    /// Reads an event stored by `to_be_bytes`. The last byte must be the code of an
    /// event type.
    pub fn from_be_bytes(data: &[u8; 5]) -> (r: Self)
        requires
            event_type_of_code(data@[4]) is Some,
        ensures
            r.timestamp == u32_of_be_bytes(data@.take(4)),
            Some(r.event_type) == event_type_of_code(data@[4]),
    {
        let timestamp = u32_from_be_bytes([data[0], data[1], data[2], data[3]]);
        let event_type = match EventType::try_from(data[4]) {
            Ok(t) => t,
            Err(_) => {
                assert(false);
                EventType::Alive
            },
        };
        Self { timestamp, event_type }
    }
}

/// Reading back the bytes of an event gives that event.
pub proof fn lemma_event_bytes_roundtrip(e: Event)
    ensures
        event_type_of_code(event_bytes(e)[4]) == Some(e.event_type),
        u32_of_be_bytes(event_bytes(e).take(4)) == e.timestamp,
{
    assert(event_bytes(e).take(4) =~= be_bytes_u32(e.timestamp));
    lemma_be_u32_roundtrip(e.timestamp);
}

/// The type byte of a stored event is 1 for `High`, 2 for `Low` and 3 for `Alive`;
/// these are the only bytes read back as a type, each as the type written with it,
/// so reading inverts writing in both directions. The fifth stored byte is the type's.
pub proof fn lemma_event_type_codes()
    ensures
        event_type_code(EventType::High) == 1,
        event_type_code(EventType::Low) == 2,
        event_type_code(EventType::Alive) == 3,
        forall|b: u8| (#[trigger] event_type_of_code(b) is Some) <==> 1 <= b <= 3,
        forall|b: u8|
            #[trigger] event_type_of_code(b) matches Some(t) ==> event_type_code(t) == b,
        forall|t: EventType| #[trigger] event_type_of_code(event_type_code(t)) == Some(t),
        forall|ts: u32| #[trigger]
            event_bytes(Event { timestamp: ts, event_type: EventType::High })[4] == 1,
        forall|ts: u32| #[trigger]
            event_bytes(Event { timestamp: ts, event_type: EventType::Low })[4] == 2,
        forall|ts: u32| #[trigger]
            event_bytes(Event { timestamp: ts, event_type: EventType::Alive })[4] == 3,
{
}

} // verus!
