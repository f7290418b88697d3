//! Events of the sensor's log and their compact 32-bit form.
//!
//! Timestamps have a resolution of one second and count from the 1st of January 2024.
//! The compact form keeps the offset from that date in its low 30 bits, which do not
//! overflow before January 2058, and the kind of event in its top two bits.
use vstd::prelude::*;

verus! {

/// An event of the log, with its UNIX timestamp.
#[derive(Debug, Clone, Copy, PartialEq, Eq, Structural)]
pub enum Event {
    High(i64),
    Low(i64),
    Error(i64),
    PwrOn(i64),
}

/// The top two bits of the compact form: the kind of event.
pub const EVENT_MASK: u32 = 0xC000_0000;

/// The kind bits of a low event.
pub const LOW_EVENT: u32 = 0x0000_0000;

/// The kind bits of a high event.
pub const HIGH_EVENT: u32 = 0x4000_0000;

/// The kind bits of an error event.
pub const ERR_EVENT: u32 = 0x8000_0000;

/// The kind bits of a power-on event.
pub const PWR_ON_EVENT: u32 = 0xC000_0000;

/// The UNIX timestamp of the 1st of January 2024, where compact timestamps start.
pub const TS_OFFSET_FROM_UNIX: i64 = 1704067200;

/// Each compact timestamp is below this bound: 2 to the 30th.
pub const COMPACT_TS_RANGE: u32 = 0x4000_0000;

/// The timestamp of an event.
pub open spec fn timestamp_of(e: Event) -> i64 {
    match e {
        Event::High(t) => t,
        Event::Low(t) => t,
        Event::Error(t) => t,
        Event::PwrOn(t) => t,
    }
}

/// The number that the top two bits of the compact form hold for an event:
/// low 0, high 1, error 2, power-on 3.
pub open spec fn compact_kind(e: Event) -> u32 {
    match e {
        Event::Low(_) => 0,
        Event::High(_) => 1,
        Event::Error(_) => 2,
        Event::PwrOn(_) => 3,
    }
}

/// The event of the given compact kind and timestamp.
pub open spec fn event_of_kind(kind: u32, t: i64) -> Event {
    if kind == 0 {
        Event::Low(t)
    } else if kind == 1 {
        Event::High(t)
    } else if kind == 2 {
        Event::Error(t)
    } else {
        Event::PwrOn(t)
    }
}

/// The event that a compact value stands for: its kind is the value's top two bits,
/// its timestamp the low thirty bits counted from 2024.
pub open spec fn spec_from_compact(val: u32) -> Event {
    event_of_kind(val / COMPACT_TS_RANGE, ((val % COMPACT_TS_RANGE) + TS_OFFSET_FROM_UNIX) as i64)
}

/// The compact value of an event: the kind in the top two bits, the offset of the
/// timestamp from 2024 in the low thirty bits (truncated to them).
pub open spec fn spec_to_compact(e: Event) -> u32 {
    (compact_kind(e) * COMPACT_TS_RANGE + ((timestamp_of(e) - TS_OFFSET_FROM_UNIX) as u32)
        % COMPACT_TS_RANGE) as u32
}

/// The timestamps that the compact form holds exactly: from 2024 on, for 2 to the
/// 30th seconds.
pub open spec fn compact_timestamp_fits(t: i64) -> bool {
    TS_OFFSET_FROM_UNIX <= t < TS_OFFSET_FROM_UNIX + COMPACT_TS_RANGE
}

proof fn lemma_mask_split(val: u32)
    ensures
        EVENT_MASK & val == (val / 0x4000_0000) * 0x4000_0000,
        val & !EVENT_MASK == val % 0x4000_0000,
        val / 0x4000_0000 < 4,
{
    assert(0xC000_0000u32 & val == (val / 0x4000_0000u32) * 0x4000_0000u32) by (bit_vector);
    assert(val / 0x4000_0000u32 < 4) by (bit_vector);
    assert(val & !0xC000_0000u32 == val % 0x4000_0000u32) by (bit_vector);
}

proof fn lemma_mask_join(kind: u32, low: u32)
    requires
        kind < 4,
    ensures
        (kind * 0x4000_0000) as u32 | (low & !EVENT_MASK) == kind * 0x4000_0000 + low
            % 0x4000_0000,
{
    assert(kind < 4 ==> ((kind * 0x4000_0000u32) as u32 | (low & !0xC000_0000u32)) == kind
        * 0x4000_0000u32 + low % 0x4000_0000u32) by (bit_vector);
}

impl Event {
    /// The event a compact value stands for. Every value stands for an event.
    pub fn from_compact_u32(val: u32) -> (r: Result<Event, ()>)
        ensures
            r == Ok::<Event, ()>(spec_from_compact(val)),
    {
        proof {
            lemma_mask_split(val);
        }
        let ts = (val & (!EVENT_MASK)) as i64 + TS_OFFSET_FROM_UNIX;
        match EVENT_MASK & val {
            LOW_EVENT => Ok(Event::Low(ts)),
            HIGH_EVENT => Ok(Event::High(ts)),
            ERR_EVENT => Ok(Event::Error(ts)),
            PWR_ON_EVENT => Ok(Event::PwrOn(ts)),
            _ => Err(()),
        }
    }

    /// The compact value of this event. The timestamp must not be so far before 2024
    /// that its offset from 2024 overflows an `i64`.
    pub fn to_compact_u32(&self) -> (r: u32)
        requires
            timestamp_of(*self) >= i64::MIN + TS_OFFSET_FROM_UNIX,
        ensures
            r == spec_to_compact(*self),
    {
        match &self {
            Event::Low(t) => {
                proof {
                    lemma_mask_join(0, (*t - TS_OFFSET_FROM_UNIX) as u32);
                }
                LOW_EVENT | (((*t - TS_OFFSET_FROM_UNIX) as u32) & (!EVENT_MASK))
            },
            Event::High(t) => {
                proof {
                    lemma_mask_join(1, (*t - TS_OFFSET_FROM_UNIX) as u32);
                }
                HIGH_EVENT | (((*t - TS_OFFSET_FROM_UNIX) as u32) & (!EVENT_MASK))
            },
            Event::Error(t) => {
                proof {
                    lemma_mask_join(2, (*t - TS_OFFSET_FROM_UNIX) as u32);
                }
                ERR_EVENT | (((*t - TS_OFFSET_FROM_UNIX) as u32) & (!EVENT_MASK))
            },
            Event::PwrOn(t) => {
                proof {
                    lemma_mask_join(3, (*t - TS_OFFSET_FROM_UNIX) as u32);
                }
                PWR_ON_EVENT | (((*t - TS_OFFSET_FROM_UNIX) as u32) & (!EVENT_MASK))
            },
        }
    }
}

/// Every compact value comes back unchanged from the event it stands for.
pub proof fn lemma_compact_roundtrip(val: u32)
    ensures
        timestamp_of(spec_from_compact(val)) >= i64::MIN + TS_OFFSET_FROM_UNIX,
        spec_to_compact(spec_from_compact(val)) == val,
{
    let low = val % COMPACT_TS_RANGE;
    let e = spec_from_compact(val);
    assert(timestamp_of(e) - TS_OFFSET_FROM_UNIX == low);
    assert(((timestamp_of(e) - TS_OFFSET_FROM_UNIX) as u32) == low);
    assert(low % COMPACT_TS_RANGE == low);
}

/// An event whose timestamp the compact form holds comes back unchanged from its
/// compact value.
pub proof fn lemma_event_compact_roundtrip(e: Event)
    requires
        compact_timestamp_fits(timestamp_of(e)),
    ensures
        spec_from_compact(spec_to_compact(e)) == e,
{
    let d = (timestamp_of(e) - TS_OFFSET_FROM_UNIX) as u32;
    assert(d == timestamp_of(e) - TS_OFFSET_FROM_UNIX);
    assert(d % COMPACT_TS_RANGE == d);
    let v = spec_to_compact(e);
    assert(v == compact_kind(e) * COMPACT_TS_RANGE + d);
    assert(v / COMPACT_TS_RANGE == compact_kind(e)) by (nonlinear_arith)
        requires
            v == compact_kind(e) * COMPACT_TS_RANGE + d,
            d < COMPACT_TS_RANGE,
            COMPACT_TS_RANGE == 0x4000_0000,
    ;
    assert(v % COMPACT_TS_RANGE == d) by (nonlinear_arith)
        requires
            v == compact_kind(e) * COMPACT_TS_RANGE + d,
            d < COMPACT_TS_RANGE,
            COMPACT_TS_RANGE == 0x4000_0000,
    ;
}

/// The compact value of an event whose timestamp it holds is the kind's bits
/// (`LOW_EVENT`, `HIGH_EVENT`, `ERR_EVENT`, `PWR_ON_EVENT`) plus the seconds since the
/// 1st of January 2024.
pub proof fn lemma_compact_kinds(t: i64)
    requires
        compact_timestamp_fits(t),
    ensures
        spec_to_compact(Event::Low(t)) == LOW_EVENT + (t - TS_OFFSET_FROM_UNIX),
        spec_to_compact(Event::High(t)) == HIGH_EVENT + (t - TS_OFFSET_FROM_UNIX),
        spec_to_compact(Event::Error(t)) == ERR_EVENT + (t - TS_OFFSET_FROM_UNIX),
        spec_to_compact(Event::PwrOn(t)) == PWR_ON_EVENT + (t - TS_OFFSET_FROM_UNIX),
{
    let d = (t - TS_OFFSET_FROM_UNIX) as u32;
    assert(d == t - TS_OFFSET_FROM_UNIX);
    assert(d % COMPACT_TS_RANGE == d);
}

} // verus!
