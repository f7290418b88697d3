use vstd::prelude::*;

verus! {

/// Kind of a light event. Its byte is 1 for `High`, 2 for `Low` and 3 for `Alive`:
/// take it with `code()` (a cast with `as u8` gives the variant's position, from 0).
#[derive(Debug, PartialEq, Eq, Structural, Clone, Copy)]
pub enum EventType {
    High,
    Low,
    Alive,
}

/// A light event: when it happened and what kind it is.
#[derive(Debug, PartialEq, Eq, Structural, Clone, Copy)]
pub struct Event {
    pub timestamp: u32,
    pub event_type: EventType,
}

/// The byte that stands for an event type: 1, 2 or 3.
pub open spec fn event_type_code(t: EventType) -> u8 {
    match t {
        EventType::High => 1,
        EventType::Low => 2,
        EventType::Alive => 3,
    }
}

/// The event type that a byte stands for, if any.
pub open spec fn event_type_of_code(value: u8) -> Option<EventType> {
    if value == 1 {
        Some(EventType::High)
    } else if value == 2 {
        Some(EventType::Low)
    } else if value == 3 {
        Some(EventType::Alive)
    } else {
        None
    }
}

/// The index of an event type among the variants, as its wire format carries it.
pub open spec fn event_type_index(t: EventType) -> u32 {
    match t {
        EventType::High => 0,
        EventType::Low => 1,
        EventType::Alive => 2,
    }
}

/// The event type at a variant index, if any.
pub open spec fn event_type_of_index(i: u32) -> Option<EventType> {
    if i == 0 {
        Some(EventType::High)
    } else if i == 1 {
        Some(EventType::Low)
    } else if i == 2 {
        Some(EventType::Alive)
    } else {
        None
    }
}

/// The four big-endian bytes of a `u32`.
pub open spec fn be_bytes_u32(x: u32) -> Seq<u8> {
    seq![
        (x / 0x100_0000) as u8,
        ((x / 0x1_0000) % 0x100) as u8,
        ((x / 0x100) % 0x100) as u8,
        (x % 0x100) as u8,
    ]
}

/// The `u32` whose big-endian bytes are `b[0..4]`.
pub open spec fn u32_of_be_bytes(b: Seq<u8>) -> u32 {
    (b[0] * 0x100_0000 + b[1] * 0x1_0000 + b[2] * 0x100 + b[3]) as u32
}

/// The five bytes that store an event: the timestamp big-endian, then the code of its type.
pub open spec fn event_bytes(e: Event) -> Seq<u8> {
    be_bytes_u32(e.timestamp).push(event_type_code(e.event_type))
}

impl EventType {
    /// The byte that stands for this event type.
    pub fn code(self) -> (r: u8)
        ensures
            r == event_type_code(self),
    {
        match self {
            EventType::High => 1,
            EventType::Low => 2,
            EventType::Alive => 3,
        }
    }
}

impl EventType {
    /// The index of this event type among the variants.
    pub fn index(self) -> (r: u32)
        ensures
            r == event_type_index(self),
    {
        match self {
            EventType::High => 0,
            EventType::Low => 1,
            EventType::Alive => 2,
        }
    }

    /// The event type at a variant index, if any.
    pub fn from_index(i: u32) -> (r: Option<Self>)
        ensures
            r == event_type_of_index(i),
    {
        if i == 0 {
            Some(EventType::High)
        } else if i == 1 {
            Some(EventType::Low)
        } else if i == 2 {
            Some(EventType::Alive)
        } else {
            None
        }
    }
}

impl vstd::std_specs::convert::TryFromSpecImpl<u8> for EventType {
    open spec fn obeys_try_from_spec() -> bool {
        true
    }

    open spec fn try_from_spec(value: u8) -> Result<Self, ()> {
        match event_type_of_code(value) {
            Some(t) => Ok(t),
            None => Err(()),
        }
    }
}

impl TryFrom<u8> for EventType {
    type Error = ();

    fn try_from(value: u8) -> (r: Result<Self, ()>) {
        match value {
            1 => Ok(Self::High),
            2 => Ok(Self::Low),
            3 => Ok(Self::Alive),
            _ => Err(()),
        }
    }
}

/// Big-endian bytes of a `u32`.
pub fn u32_to_be_bytes(x: u32) -> (r: [u8; 4])
    ensures
        r@ == be_bytes_u32(x),
{
    let r = [
        (x / 0x100_0000) as u8,
        ((x / 0x1_0000) % 0x100) as u8,
        ((x / 0x100) % 0x100) as u8,
        (x % 0x100) as u8,
    ];
    assert(r@ =~= be_bytes_u32(x));
    r
}

/// The `u32` whose big-endian bytes are `b`.
pub fn u32_from_be_bytes(b: [u8; 4]) -> (r: u32)
    ensures
        r == u32_of_be_bytes(b@),
{
    (b[0] as u32) * 0x100_0000 + (b[1] as u32) * 0x1_0000 + (b[2] as u32) * 0x100 + (b[3] as u32)
}

/// Reading back the big-endian bytes of a `u32` gives that `u32`.
pub proof fn lemma_be_u32_roundtrip(x: u32)
    ensures
        u32_of_be_bytes(be_bytes_u32(x)) == x,
{
}

/// Writing the `u32` read from four bytes gives back those bytes.
pub proof fn lemma_be_bytes_roundtrip(b: Seq<u8>)
    requires
        b.len() == 4,
    ensures
        be_bytes_u32(u32_of_be_bytes(b)) == b,
{
    let b0 = b[0] as int;
    let b1 = b[1] as int;
    let b2 = b[2] as int;
    let b3 = b[3] as int;
    let x = b0 * 0x100_0000 + b1 * 0x1_0000 + b2 * 0x100 + b3;
    assert(0 <= x < 0x1_0000_0000) by (nonlinear_arith)
        requires
            0 <= b0 < 256,
            0 <= b1 < 256,
            0 <= b2 < 256,
            0 <= b3 < 256,
            x == b0 * 0x100_0000 + b1 * 0x1_0000 + b2 * 0x100 + b3,
    ;
    assert(x / 0x100_0000 == b0 && (x / 0x1_0000) % 0x100 == b1 && (x / 0x100) % 0x100 == b2 && x
        % 0x100 == b3) by (nonlinear_arith)
        requires
            0 <= b0 < 256,
            0 <= b1 < 256,
            0 <= b2 < 256,
            0 <= b3 < 256,
            x == b0 * 0x100_0000 + b1 * 0x1_0000 + b2 * 0x100 + b3,
    ;
    assert(u32_of_be_bytes(b) == x);
    assert(be_bytes_u32(u32_of_be_bytes(b)) =~= b);
}

impl Event {
    /// The timestamp big-endian, then the code of the event type.
    pub fn to_be_bytes(&self) -> (r: [u8; 5])
        ensures
            r@ == event_bytes(*self),
    {
        let ts = u32_to_be_bytes(self.timestamp);
        let r = [ts[0], ts[1], ts[2], ts[3], self.event_type.code()];
        assert(r@ =~= event_bytes(*self));
        r
    }

    /// Reads an event stored by `to_be_bytes`. The last byte must be the code of an
    /// event type.
    pub fn from_be_bytes(data: &[u8; 5]) -> (r: Self)
        requires
            event_type_of_code(data@[4]) is Some,
        ensures
            r.timestamp == u32_of_be_bytes(data@.take(4)),
            Some(r.event_type) == event_type_of_code(data@[4]),
    {
        let timestamp = u32_from_be_bytes([data[0], data[1], data[2], data[3]]);
        let event_type = match EventType::try_from(data[4]) {
            Ok(t) => t,
            Err(_) => {
                assert(false);
                EventType::Alive
            },
        };
        Self { timestamp, event_type }
    }
}

/// Reading back the bytes of an event gives that event.
pub proof fn lemma_event_bytes_roundtrip(e: Event)
    ensures
        event_type_of_code(event_bytes(e)[4]) == Some(e.event_type),
        u32_of_be_bytes(event_bytes(e).take(4)) == e.timestamp,
{
    assert(event_bytes(e).take(4) =~= be_bytes_u32(e.timestamp));
    lemma_be_u32_roundtrip(e.timestamp);
}

/// Storing the event read from five valid bytes gives back those bytes.
pub proof fn lemma_bytes_event_roundtrip(b: Seq<u8>)
    requires
        b.len() == 5,
        event_type_of_code(b[4]) is Some,
    ensures
        event_bytes(Event { timestamp: u32_of_be_bytes(b.take(4)), event_type: event_type_of_code(b[4])->0 }) == b,
{
    lemma_be_bytes_roundtrip(b.take(4));
    assert(event_bytes(Event { timestamp: u32_of_be_bytes(b.take(4)), event_type: event_type_of_code(b[4])->0 }) =~= b);
}

/// The byte of an event type is 1 for `High`, 2 for `Low` and 3 for `Alive`, the only
/// bytes read back as a type, each as the type written with it; on the wire a type is
/// its place in the declaration instead (`High` 0, `Low` 1, `Alive` 2), read back the
/// same way.
pub proof fn lemma_event_type_codes()
    ensures
        event_type_code(EventType::High) == 1,
        event_type_code(EventType::Low) == 2,
        event_type_code(EventType::Alive) == 3,
        forall|b: u8| (#[trigger] event_type_of_code(b) is Some) <==> 1 <= b <= 3,
        forall|b: u8|
            #[trigger] event_type_of_code(b) matches Some(t) ==> event_type_code(t) == b,
        forall|t: EventType| #[trigger] event_type_of_code(event_type_code(t)) == Some(t),
        event_type_index(EventType::High) == 0,
        event_type_index(EventType::Low) == 1,
        event_type_index(EventType::Alive) == 2,
        forall|i: u32| (#[trigger] event_type_of_index(i) is Some) <==> i <= 2,
        forall|i: u32|
            #[trigger] event_type_of_index(i) matches Some(t) ==> event_type_index(t) == i,
        forall|t: EventType| #[trigger] event_type_of_index(event_type_index(t)) == Some(t),
{
}

} // verus!
