//! Where the event log lives in the EEPROM, and the decisions of its operations.
//!
//! The device id takes the first eight bytes (big-endian), the number of events the
//! next four (big-endian), and the events follow as four-byte big-endian compact
//! values, the n-th at `12 + 4 * n`. Reading and writing the EEPROM is the caller's:
//! these functions say where, what, and what to do with what was read.
use vstd::prelude::*;
use crate::link::event::{be_bytes_u32, lemma_be_u32_roundtrip, u32_from_be_bytes, u32_of_be_bytes, u32_to_be_bytes};
use crate::sensor::storage::event::{
    Event, TS_OFFSET_FROM_UNIX, compact_timestamp_fits, lemma_event_compact_roundtrip, spec_from_compact, spec_to_compact, timestamp_of,
};

verus! {

/// Address of the device id.
pub const DEVICE_ID_ADDR: u32 = 0u32;

/// Address of the number of events.
pub const NUM_OF_EVENT_ADDR: u32 = 8u32;

/// Address of the first event.
pub const EVENT_ADDR: u32 = 12u32;

/// Bytes taken by one event.
pub const EVENT_SIZE: u32 = 4u32;

/// Address of the `n`-th event.
pub open spec fn spec_event_address(n: int) -> int {
    EVENT_ADDR + EVENT_SIZE * n
}

/// The eight big-endian bytes of a `u64`.
pub open spec fn be_bytes_u64(x: u64) -> Seq<u8> {
    seq![
        (x / 0x100_0000_0000_0000) as u8,
        ((x / 0x1_0000_0000_0000) % 0x100) as u8,
        ((x / 0x100_0000_0000) % 0x100) as u8,
        ((x / 0x1_0000_0000) % 0x100) as u8,
        ((x / 0x100_0000) % 0x100) as u8,
        ((x / 0x1_0000) % 0x100) as u8,
        ((x / 0x100) % 0x100) as u8,
        (x % 0x100) as u8,
    ]
}

/// The `u64` whose big-endian bytes are `b[0..8]`.
pub open spec fn u64_of_be_bytes(b: Seq<u8>) -> u64 {
    (b[0] * 0x100_0000_0000_0000 + b[1] * 0x1_0000_0000_0000 + b[2] * 0x100_0000_0000 + b[3]
        * 0x1_0000_0000 + b[4] * 0x100_0000 + b[5] * 0x1_0000 + b[6] * 0x100 + b[7]) as u64
}

/// The bytes that store an event: its compact value, big-endian.
pub open spec fn event_record(e: Event) -> Seq<u8> {
    be_bytes_u32(spec_to_compact(e))
}

/// The event stored in four bytes.
pub open spec fn event_of_record(b: Seq<u8>) -> Event {
    spec_from_compact(u32_of_be_bytes(b))
}

/// Address of the `event_number`-th event. The address must fit a `u32`.
pub fn event_address(event_number: u32) -> (r: u32)
    requires
        spec_event_address(event_number as int) <= u32::MAX,
    ensures
        r == spec_event_address(event_number as int),
{
    EVENT_ADDR + EVENT_SIZE * event_number
}

/// Where to read the `event_number`-th event of a log of `number_of_event` events:
/// nowhere when the number is above the count. The event at the count itself is read,
/// although the log holds none there.
pub fn get_event_address(number_of_event: u32, event_number: u32) -> (r: Option<u32>)
    requires
        number_of_event < event_number || spec_event_address(event_number as int) <= u32::MAX,
    ensures
        number_of_event < event_number ==> r is None,
        number_of_event >= event_number ==> r == Some(spec_event_address(event_number as int) as u32),
{
    if number_of_event < event_number {
        None
    } else {
        Some(event_address(event_number))
    }
}

/// Where to read the event `event_number` places before the last one of a log of
/// `number_of_event` events: nowhere when the number is above the count. The log must
/// hold the event (it then lies at `number_of_event - 1 - event_number`) unless the
/// number is above the count; a number equal to the count has no event to read.
pub fn get_event_from_end_address(number_of_event: u32, event_number: u32) -> (r: Option<u32>)
    requires
        number_of_event < event_number || (event_number < number_of_event && spec_event_address(
            number_of_event - 1 - event_number,
        ) <= u32::MAX),
    ensures
        number_of_event < event_number ==> r is None,
        event_number < number_of_event ==> r == Some(
            spec_event_address(number_of_event - 1 - event_number) as u32,
        ),
{
    if number_of_event < event_number {
        None
    } else {
        Some(event_address((number_of_event - 1) - event_number))
    }
}

/// The event stored in four bytes. Every four bytes store an event.
pub fn decode_event_record(data: [u8; 4]) -> (r: Result<Event, ()>)
    ensures
        r == Ok::<Event, ()>(event_of_record(data@)),
{
    Event::from_compact_u32(u32_from_be_bytes(data))
}

/// The four bytes that store an event.
pub fn encode_event_record(event: Event) -> (r: [u8; 4])
    requires
        timestamp_of(event) >= i64::MIN + TS_OFFSET_FROM_UNIX,
    ensures
        r@ == event_record(event),
{
    u32_to_be_bytes(event.to_compact_u32())
}

/// The number of events stored in four bytes.
pub fn decode_number_of_event(data: [u8; 4]) -> (r: u32)
    ensures
        r == u32_of_be_bytes(data@),
{
    u32_from_be_bytes(data)
}

/// The four bytes that store a number of events.
pub fn encode_number_of_event(number: u32) -> (r: [u8; 4])
    ensures
        r@ == be_bytes_u32(number),
{
    u32_to_be_bytes(number)
}

/// The device id stored in eight bytes.
pub fn decode_device_id(data: [u8; 8]) -> (r: u64)
    ensures
        r == u64_of_be_bytes(data@),
{
    (data[0] as u64) * 0x100_0000_0000_0000 + (data[1] as u64) * 0x1_0000_0000_0000 + (data[2] as u64)
        * 0x100_0000_0000 + (data[3] as u64) * 0x1_0000_0000 + (data[4] as u64) * 0x100_0000
        + (data[5] as u64) * 0x1_0000 + (data[6] as u64) * 0x100 + (data[7] as u64)
}

/// The eight bytes that store a device id.
pub fn encode_device_id(id: u64) -> (r: [u8; 8])
    ensures
        r@ == be_bytes_u64(id),
{
    let r = [
        (id / 0x100_0000_0000_0000) as u8,
        ((id / 0x1_0000_0000_0000) % 0x100) as u8,
        ((id / 0x100_0000_0000) % 0x100) as u8,
        ((id / 0x1_0000_0000) % 0x100) as u8,
        ((id / 0x100_0000) % 0x100) as u8,
        ((id / 0x1_0000) % 0x100) as u8,
        ((id / 0x100) % 0x100) as u8,
        (id % 0x100) as u8,
    ];
    assert(r@ =~= be_bytes_u64(id));
    r
}

/// What `add_or_overwrite_event` does with the new event.
#[derive(Debug, PartialEq, Eq, Structural, Clone, Copy)]
pub enum OverwriteDecision {
    /// Append the new event.
    AddNew,
    /// Drop the newest stored event and do not store the new one: the two light
    /// periods around a short dark one become one.
    RemoveLast,
}

/// Whether the decision calls for subtracting the newest stored low timestamp from the
/// new high one, and whether that subtraction fits an `i64`.
pub open spec fn overwrite_times_fit(last: Option<Event>, event: Event) -> bool {
    match (last, event) {
        (Some(Event::Low(l)), Event::High(h)) => i64::MIN <= h - l <= i64::MAX,
        _ => true,
    }
}

/// The decision of `add_or_overwrite_event`: when the newest stored event is a low one
/// and the new event a high one at most `overwrite_delay` seconds later, the dark
/// period between them is dropped (the low event is removed and the high one is not
/// stored); anything else appends the new event.
pub open spec fn spec_overwrite_decision(
    last: Option<Event>,
    event: Event,
    overwrite_delay: u32,
) -> OverwriteDecision {
    match (last, event) {
        (Some(Event::Low(l)), Event::High(h)) => if h - l > overwrite_delay {
            OverwriteDecision::AddNew
        } else {
            OverwriteDecision::RemoveLast
        },
        _ => OverwriteDecision::AddNew,
    }
}

/// Decides what `add_or_overwrite_event` does with `event`, from the newest stored
/// event (`None` when there is none to read).
pub fn add_or_overwrite_decision(
    last: Option<Event>,
    event: Event,
    overwrite_delay: u32,
) -> (r: OverwriteDecision)
    requires
        overwrite_times_fit(last, event),
    ensures
        r == spec_overwrite_decision(last, event, overwrite_delay),
{
    let last_low_event_ts = match last {
        Some(Event::Low(t)) => t,
        _ => {
            return OverwriteDecision::AddNew;
        },
    };
    let high_event_ts = match event {
        Event::High(t) => t,
        _ => {
            return OverwriteDecision::AddNew;
        },
    };
    if high_event_ts - last_low_event_ts > overwrite_delay as i64 {
        OverwriteDecision::AddNew
    } else {
        OverwriteDecision::RemoveLast
    }
}

/// The number of events once the last one is dropped. The log must not be empty.
pub fn number_of_event_after_removal(number_of_event: u32) -> (r: u32)
    requires
        number_of_event >= 1,
    ensures
        r == number_of_event - 1,
{
    number_of_event - 1
}

/// The number of events once one more is stored. The count must not overflow.
pub fn number_of_event_after_addition(number_of_event: u32) -> (r: u32)
    requires
        number_of_event < u32::MAX,
    ensures
        r == number_of_event + 1,
{
    number_of_event + 1
}

/// Reading back the big-endian bytes of a `u64` gives that `u64`.
pub proof fn lemma_be_u64_roundtrip(x: u64)
    ensures
        u64_of_be_bytes(be_bytes_u64(x)) == x,
{
    let b0: u64 = x / 0x100_0000_0000_0000u64;
    let b1: u64 = (x / 0x1_0000_0000_0000u64) % 0x100u64;
    let b2: u64 = (x / 0x100_0000_0000u64) % 0x100u64;
    let b3: u64 = (x / 0x1_0000_0000u64) % 0x100u64;
    let b4: u64 = (x / 0x100_0000u64) % 0x100u64;
    let b5: u64 = (x / 0x1_0000u64) % 0x100u64;
    let b6: u64 = (x / 0x100u64) % 0x100u64;
    let b7: u64 = x % 0x100u64;
    assert(b0 < 0x100 && b0 * 0x100_0000_0000_0000u64 + b1 * 0x1_0000_0000_0000u64 + b2
        * 0x100_0000_0000u64 + b3 * 0x1_0000_0000u64 + b4 * 0x100_0000u64 + b5 * 0x1_0000u64 + b6
        * 0x100u64 + b7 == x) by (bit_vector)
        requires
            b0 == x / 0x100_0000_0000_0000u64,
            b1 == (x / 0x1_0000_0000_0000u64) % 0x100u64,
            b2 == (x / 0x100_0000_0000u64) % 0x100u64,
            b3 == (x / 0x1_0000_0000u64) % 0x100u64,
            b4 == (x / 0x100_0000u64) % 0x100u64,
            b5 == (x / 0x1_0000u64) % 0x100u64,
            b6 == (x / 0x100u64) % 0x100u64,
            b7 == x % 0x100u64,
    ;
    let b = be_bytes_u64(x);
    assert(b[0] == b0 && b[1] == b1 && b[2] == b2 && b[3] == b3 && b[4] == b4 && b[5] == b5 && b[6]
        == b6 && b[7] == b7);
}

/// Reading back the bytes that store an event gives that event, when the compact form
/// holds its timestamp.
pub proof fn lemma_event_record_roundtrip(e: Event)
    requires
        compact_timestamp_fits(timestamp_of(e)),
    ensures
        event_of_record(event_record(e)) == e,
{
    lemma_be_u32_roundtrip(spec_to_compact(e));
    lemma_event_compact_roundtrip(e);
}

/// The EEPROM contents after `bytes` are written at `addr`.
pub open spec fn eeprom_write(mem: Seq<u8>, addr: int, bytes: Seq<u8>) -> Seq<u8> {
    mem.take(addr) + bytes + mem.skip(addr + bytes.len())
}

/// The `len` bytes of the EEPROM at `addr`.
pub open spec fn eeprom_read(mem: Seq<u8>, addr: int, len: int) -> Seq<u8> {
    mem.subrange(addr, addr + len)
}

/// Whether `len` bytes at `addr` lie in the EEPROM.
pub open spec fn in_eeprom(mem: Seq<u8>, addr: int, len: int) -> bool {
    0 <= addr && 0 <= len && addr + len <= mem.len()
}

/// The number of events the log holds.
pub open spec fn stored_number_of_event(mem: Seq<u8>) -> u32 {
    u32_of_be_bytes(eeprom_read(mem, NUM_OF_EVENT_ADDR as int, 4))
}

/// The device id the log holds.
pub open spec fn stored_device_id(mem: Seq<u8>) -> u64 {
    u64_of_be_bytes(eeprom_read(mem, DEVICE_ID_ADDR as int, 8))
}

/// The event stored at place `n`.
pub open spec fn stored_event(mem: Seq<u8>, n: int) -> Event {
    event_of_record(eeprom_read(mem, spec_event_address(n), EVENT_SIZE as int))
}

/// What `get_event` reads: nothing past the count, else the event at that place.
pub open spec fn log_get_event(mem: Seq<u8>, n: u32) -> Option<Event> {
    if stored_number_of_event(mem) < n {
        None
    } else {
        Some(stored_event(mem, n as int))
    }
}

/// What `get_event_from_end` reads: nothing past the count, else the event `n` places
/// before the last one.
pub open spec fn log_get_event_from_end(mem: Seq<u8>, n: u32) -> Option<Event> {
    let count = stored_number_of_event(mem);
    if count < n {
        None
    } else {
        Some(stored_event(mem, count - 1 - n))
    }
}

/// The EEPROM once `event` is written at the place of the count read.
pub open spec fn log_write_event(mem: Seq<u8>, e: Event) -> Seq<u8> {
    eeprom_write(mem, spec_event_address(stored_number_of_event(mem) as int), event_record(e))
}

/// The EEPROM once the count read is written back one higher.
pub open spec fn log_increment_count(mem: Seq<u8>) -> Seq<u8> {
    eeprom_write(
        mem,
        NUM_OF_EVENT_ADDR as int,
        be_bytes_u32((stored_number_of_event(mem) + 1) as u32),
    )
}

/// The EEPROM after `add_new_event`: the event written at the place of the count read,
/// then the count read again and written back one higher.
pub open spec fn log_add_new_event(mem: Seq<u8>, e: Event) -> Seq<u8> {
    log_increment_count(log_write_event(mem, e))
}

/// The EEPROM after `remove_last_event`: the count written back one lower.
pub open spec fn log_remove_last_event(mem: Seq<u8>) -> Seq<u8> {
    eeprom_write(
        mem,
        NUM_OF_EVENT_ADDR as int,
        be_bytes_u32((stored_number_of_event(mem) - 1) as u32),
    )
}

/// The EEPROM after `clear_event_storage`: a count of zero.
pub open spec fn log_clear(mem: Seq<u8>) -> Seq<u8> {
    eeprom_write(mem, NUM_OF_EVENT_ADDR as int, be_bytes_u32(0))
}

/// The EEPROM after `set_device_id`.
pub open spec fn log_set_device_id(mem: Seq<u8>, id: u64) -> Seq<u8> {
    eeprom_write(mem, DEVICE_ID_ADDR as int, be_bytes_u64(id))
}

/// The EEPROM after `add_or_overwrite_event`: the newest stored event decides whether
/// the new event is appended or the newest one dropped.
pub open spec fn log_add_or_overwrite_event(mem: Seq<u8>, e: Event, overwrite_delay: u32) -> Seq<
    u8,
> {
    match spec_overwrite_decision(log_get_event_from_end(mem, 0), e, overwrite_delay) {
        OverwriteDecision::AddNew => log_add_new_event(mem, e),
        OverwriteDecision::RemoveLast => log_remove_last_event(mem),
    }
}

/// The write that stores `event` after the events of a log whose count reads
/// `count_data`: its address and its bytes. Made on an EEPROM whose count bytes are
/// `count_data`, it is the first write of `add_new_event`. The address must fit a
/// `u32` and the compact form must take the timestamp without overflow.
pub fn event_write_for_addition(count_data: [u8; 4], event: Event) -> (r: (u32, [u8; 4]))
    requires
        spec_event_address(u32_of_be_bytes(count_data@) as int) <= u32::MAX,
        timestamp_of(event) >= i64::MIN + TS_OFFSET_FROM_UNIX,
    ensures
        r.0 == spec_event_address(u32_of_be_bytes(count_data@) as int),
        r.1@ == event_record(event),
        forall|mem: Seq<u8>|
            eeprom_read(mem, NUM_OF_EVENT_ADDR as int, 4) == count_data@ ==> #[trigger] log_write_event(
                mem,
                event,
            ) == eeprom_write(mem, r.0 as int, r.1@),
{
    let number = decode_number_of_event(count_data);
    (event_address(number), encode_event_record(event))
}

/// The decision of `add_or_overwrite_event` on a log whose count reads `count_data`
/// and whose newest event reads `last_data`. Made on an EEPROM that holds those bytes,
/// it picks the operation that `log_add_or_overwrite_event` performs. The log must not
/// be empty (there is a newest event to read), and the subtraction of a low timestamp
/// from a high one must not overflow.
pub fn add_or_overwrite_step(
    count_data: [u8; 4],
    last_data: [u8; 4],
    event: Event,
    overwrite_delay: u32,
) -> (r: OverwriteDecision)
    requires
        u32_of_be_bytes(count_data@) >= 1,
        overwrite_times_fit(Some(event_of_record(last_data@)), event),
    ensures
        r == spec_overwrite_decision(Some(event_of_record(last_data@)), event, overwrite_delay),
        forall|mem: Seq<u8>|
            eeprom_read(mem, NUM_OF_EVENT_ADDR as int, 4) == count_data@ && eeprom_read(
                mem,
                spec_event_address(u32_of_be_bytes(count_data@) - 1),
                EVENT_SIZE as int,
            ) == last_data@ ==> #[trigger] log_add_or_overwrite_event(mem, event, overwrite_delay)
                == (match r {
                OverwriteDecision::AddNew => log_add_new_event(mem, event),
                OverwriteDecision::RemoveLast => log_remove_last_event(mem),
            }),
{
    let last = match decode_event_record(last_data) {
        Ok(e) => e,
        Err(_) => {
            return OverwriteDecision::AddNew;
        },
    };
    add_or_overwrite_decision(Some(last), event, overwrite_delay)
}

/// The write that raises the count of a log whose count reads `count_data` by one.
/// Made on an EEPROM whose count bytes are `count_data`, it is the last write of
/// `add_new_event`. The count must not overflow.
pub fn count_write_for_addition(count_data: [u8; 4]) -> (r: (u32, [u8; 4]))
    requires
        u32_of_be_bytes(count_data@) < u32::MAX,
    ensures
        r.0 == NUM_OF_EVENT_ADDR,
        r.1@ == be_bytes_u32((u32_of_be_bytes(count_data@) + 1) as u32),
        forall|mem: Seq<u8>|
            eeprom_read(mem, NUM_OF_EVENT_ADDR as int, 4) == count_data@
                ==> #[trigger] log_increment_count(mem) == eeprom_write(mem, r.0 as int, r.1@),
{
    let number = decode_number_of_event(count_data);
    (NUM_OF_EVENT_ADDR, encode_number_of_event(number_of_event_after_addition(number)))
}

/// The write that drops the last event of a log whose count reads `count_data`. Made
/// on an EEPROM whose count bytes are `count_data`, it is `remove_last_event`. The log
/// must not be empty.
pub fn count_write_for_removal(count_data: [u8; 4]) -> (r: (u32, [u8; 4]))
    requires
        u32_of_be_bytes(count_data@) >= 1,
    ensures
        r.0 == NUM_OF_EVENT_ADDR,
        r.1@ == be_bytes_u32((u32_of_be_bytes(count_data@) - 1) as u32),
        forall|mem: Seq<u8>|
            eeprom_read(mem, NUM_OF_EVENT_ADDR as int, 4) == count_data@
                ==> #[trigger] log_remove_last_event(mem) == eeprom_write(mem, r.0 as int, r.1@),
{
    let number = decode_number_of_event(count_data);
    (NUM_OF_EVENT_ADDR, encode_number_of_event(number_of_event_after_removal(number)))
}

/// The write of `clear_event_storage`: a count of zero.
pub fn count_write_for_clear() -> (r: (u32, [u8; 4]))
    ensures
        r.0 == NUM_OF_EVENT_ADDR,
        forall|mem: Seq<u8>| #[trigger] log_clear(mem) == eeprom_write(mem, r.0 as int, r.1@),
{
    (NUM_OF_EVENT_ADDR, encode_number_of_event(0))
}

/// The write of `set_device_id`.
pub fn device_id_write(id: u64) -> (r: (u32, [u8; 8]))
    ensures
        r.0 == DEVICE_ID_ADDR,
        forall|mem: Seq<u8>| #[trigger] log_set_device_id(mem, id) == eeprom_write(mem, r.0 as int, r.1@),
{
    (DEVICE_ID_ADDR, encode_device_id(id))
}

/// Reading where bytes were just written gives those bytes.
pub proof fn lemma_read_written(mem: Seq<u8>, addr: int, bytes: Seq<u8>)
    requires
        in_eeprom(mem, addr, bytes.len() as int),
    ensures
        eeprom_write(mem, addr, bytes).len() == mem.len(),
        eeprom_read(eeprom_write(mem, addr, bytes), addr, bytes.len() as int) == bytes,
{
    assert(eeprom_read(eeprom_write(mem, addr, bytes), addr, bytes.len() as int) =~= bytes);
}

/// Writing bytes leaves every byte elsewhere as it was.
pub proof fn lemma_read_elsewhere(mem: Seq<u8>, addr: int, bytes: Seq<u8>, at: int, len: int)
    requires
        in_eeprom(mem, addr, bytes.len() as int),
        in_eeprom(mem, at, len),
        at + len <= addr || addr + bytes.len() <= at,
    ensures
        eeprom_read(eeprom_write(mem, addr, bytes), at, len) == eeprom_read(mem, at, len),
{
    assert(eeprom_read(eeprom_write(mem, addr, bytes), at, len) =~= eeprom_read(mem, at, len));
}

/// The log has room for one more event: the header and the next event's place lie in
/// the EEPROM, the count can grow and the compact form holds the event's timestamp.
pub open spec fn room_for_event(mem: Seq<u8>, e: Event) -> bool {
    &&& in_eeprom(mem, 0, EVENT_ADDR as int)
    &&& stored_number_of_event(mem) < u32::MAX
    &&& in_eeprom(mem, spec_event_address(stored_number_of_event(mem) as int), EVENT_SIZE as int)
    &&& compact_timestamp_fits(timestamp_of(e))
}

proof fn lemma_header_unchanged_by_event(mem: Seq<u8>, n: int, bytes: Seq<u8>)
    requires
        in_eeprom(mem, 0, EVENT_ADDR as int),
        0 <= n,
        bytes.len() == EVENT_SIZE,
        in_eeprom(mem, spec_event_address(n), EVENT_SIZE as int),
    ensures
        stored_number_of_event(eeprom_write(mem, spec_event_address(n), bytes))
            == stored_number_of_event(mem),
        stored_device_id(eeprom_write(mem, spec_event_address(n), bytes)) == stored_device_id(mem),
{
    lemma_read_elsewhere(mem, spec_event_address(n), bytes, NUM_OF_EVENT_ADDR as int, 4);
    lemma_read_elsewhere(mem, spec_event_address(n), bytes, DEVICE_ID_ADDR as int, 8);
}

/// Once an event is added, the log holds one more event, the last one (at the old
/// count) is the event added, the earlier events and the device id are as they were.
pub proof fn lemma_add_new_event(mem: Seq<u8>, e: Event)
    requires
        room_for_event(mem, e),
    ensures
        ({
            let after = log_add_new_event(mem, e);
            let count = stored_number_of_event(mem);
            &&& after.len() == mem.len()
            &&& stored_number_of_event(after) == count + 1
            &&& log_get_event_from_end(after, 0) == Some(e)
            &&& log_get_event(after, count) == Some(e)
            &&& stored_device_id(after) == stored_device_id(mem)
            &&& forall|i: int| 0 <= i < count ==> #[trigger] stored_event(after, i) == stored_event(mem, i)
        }),
{
    let count = stored_number_of_event(mem);
    let a = spec_event_address(count as int);
    let rec = event_record(e);
    let written = eeprom_write(mem, a, rec);
    lemma_read_written(mem, a, rec);
    lemma_header_unchanged_by_event(mem, count as int, rec);
    let header = be_bytes_u32((count + 1) as u32);
    let after = eeprom_write(written, NUM_OF_EVENT_ADDR as int, header);
    lemma_read_written(written, NUM_OF_EVENT_ADDR as int, header);
    lemma_be_u32_roundtrip((count + 1) as u32);
    lemma_read_elsewhere(written, NUM_OF_EVENT_ADDR as int, header, a, 4);
    lemma_read_elsewhere(written, NUM_OF_EVENT_ADDR as int, header, DEVICE_ID_ADDR as int, 8);
    lemma_event_record_roundtrip(e);
    assert(stored_event(after, count as int) == e);
    assert forall|i: int| 0 <= i < count implies #[trigger] stored_event(after, i) == stored_event(
        mem,
        i,
    ) by {
        lemma_read_elsewhere(mem, a, rec, spec_event_address(i), 4);
        lemma_read_elsewhere(written, NUM_OF_EVENT_ADDR as int, header, spec_event_address(i), 4);
    }
}

/// Removing the last event undoes adding one: the count, the earlier events and the
/// device id are back as they were.
pub proof fn lemma_remove_undoes_add(mem: Seq<u8>, e: Event)
    requires
        room_for_event(mem, e),
    ensures
        ({
            let after = log_remove_last_event(log_add_new_event(mem, e));
            let count = stored_number_of_event(mem);
            &&& after.len() == mem.len()
            &&& stored_number_of_event(after) == count
            &&& stored_device_id(after) == stored_device_id(mem)
            &&& forall|i: int| 0 <= i < count ==> #[trigger] stored_event(after, i) == stored_event(mem, i)
        }),
{
    lemma_add_new_event(mem, e);
    let count = stored_number_of_event(mem);
    let added = log_add_new_event(mem, e);
    let header = be_bytes_u32(count);
    lemma_read_written(added, NUM_OF_EVENT_ADDR as int, header);
    lemma_be_u32_roundtrip(count);
    lemma_read_elsewhere(added, NUM_OF_EVENT_ADDR as int, header, DEVICE_ID_ADDR as int, 8);
    let after = log_remove_last_event(added);
    assert(after == eeprom_write(added, NUM_OF_EVENT_ADDR as int, header));
    assert forall|i: int| 0 <= i < count implies #[trigger] stored_event(after, i) == stored_event(
        mem,
        i,
    ) by {
        assert(stored_event(added, i) == stored_event(mem, i));
        lemma_read_elsewhere(added, NUM_OF_EVENT_ADDR as int, header, spec_event_address(i), 4);
    }
}

/// Removing the last event leaves one event less, the others and the device id as
/// they were.
pub proof fn lemma_remove_last_event(mem: Seq<u8>)
    requires
        in_eeprom(mem, 0, EVENT_ADDR as int),
        stored_number_of_event(mem) >= 1,
    ensures
        ({
            let after = log_remove_last_event(mem);
            let count = stored_number_of_event(mem);
            &&& after.len() == mem.len()
            &&& stored_number_of_event(after) == count - 1
            &&& stored_device_id(after) == stored_device_id(mem)
            &&& forall|i: int|
                0 <= i && in_eeprom(mem, spec_event_address(i), EVENT_SIZE as int)
                    ==> #[trigger] stored_event(after, i) == stored_event(mem, i)
        }),
{
    let count = stored_number_of_event(mem);
    let header = be_bytes_u32((count - 1) as u32);
    lemma_read_written(mem, NUM_OF_EVENT_ADDR as int, header);
    lemma_be_u32_roundtrip((count - 1) as u32);
    lemma_read_elsewhere(mem, NUM_OF_EVENT_ADDR as int, header, DEVICE_ID_ADDR as int, 8);
    let after = log_remove_last_event(mem);
    assert forall|i: int|
        0 <= i && in_eeprom(mem, spec_event_address(i), EVENT_SIZE as int) implies #[trigger] stored_event(
        after,
        i,
    ) == stored_event(mem, i) by {
        lemma_read_elsewhere(mem, NUM_OF_EVENT_ADDR as int, header, spec_event_address(i), 4);
    }
}

/// Whether a new event fuses with the newest stored one: a high event at most
/// `overwrite_delay` seconds after a low one.
pub open spec fn fuses(last: Event, e: Event, overwrite_delay: u32) -> bool {
    match (last, e) {
        (Event::Low(l), Event::High(h)) => h - l <= overwrite_delay,
        _ => false,
    }
}

/// A high event that comes at most `overwrite_delay` seconds after the newest stored
/// low one fuses the two light periods: the low event is dropped and the high one is
/// not stored, so the log holds one event less. Any other event is appended: the log
/// holds one more, the new one last. Either way the earlier events and the device id
/// stay as they were.
pub proof fn lemma_add_or_overwrite_event(mem: Seq<u8>, e: Event, overwrite_delay: u32)
    requires
        room_for_event(mem, e),
        stored_number_of_event(mem) >= 1,
        overwrite_times_fit(Some(stored_event(mem, stored_number_of_event(mem) - 1)), e),
    ensures
        ({
            let count = stored_number_of_event(mem);
            let after = log_add_or_overwrite_event(mem, e, overwrite_delay);
            let fused = fuses(stored_event(mem, count - 1), e, overwrite_delay);
            &&& after.len() == mem.len()
            &&& stored_device_id(after) == stored_device_id(mem)
            &&& fused ==> stored_number_of_event(after) == count - 1
            &&& !fused ==> stored_number_of_event(after) == count + 1 && log_get_event_from_end(
                after,
                0,
            ) == Some(e)
            &&& forall|i: int| 0 <= i < count - 1 ==> #[trigger] stored_event(after, i) == stored_event(mem, i)
        }),
{
    let count = stored_number_of_event(mem);
    let last = stored_event(mem, count - 1);
    assert(log_get_event_from_end(mem, 0) == Some(last));
    if fuses(last, e, overwrite_delay) {
        assert(log_add_or_overwrite_event(mem, e, overwrite_delay) == log_remove_last_event(mem));
        lemma_remove_last_event(mem);
        let after = log_remove_last_event(mem);
        assert forall|i: int| 0 <= i < count - 1 implies #[trigger] stored_event(after, i)
            == stored_event(mem, i) by {
            assert(in_eeprom(mem, spec_event_address(i), EVENT_SIZE as int));
        }
    } else {
        assert(log_add_or_overwrite_event(mem, e, overwrite_delay) == log_add_new_event(mem, e));
        lemma_add_new_event(mem, e);
    }
}

/// Clearing leaves no event past the first place and keeps the device id.
pub proof fn lemma_clear(mem: Seq<u8>)
    requires
        in_eeprom(mem, 0, EVENT_ADDR as int),
    ensures
        stored_number_of_event(log_clear(mem)) == 0,
        stored_device_id(log_clear(mem)) == stored_device_id(mem),
        forall|n: u32| n > 0 ==> #[trigger] log_get_event(log_clear(mem), n) is None,
{
    let header = be_bytes_u32(0);
    lemma_read_written(mem, NUM_OF_EVENT_ADDR as int, header);
    lemma_be_u32_roundtrip(0);
    lemma_read_elsewhere(mem, NUM_OF_EVENT_ADDR as int, header, DEVICE_ID_ADDR as int, 8);
}

/// The device id reads back as written, and writing it keeps the count and the events.
pub proof fn lemma_set_device_id(mem: Seq<u8>, id: u64)
    requires
        in_eeprom(mem, 0, EVENT_ADDR as int),
    ensures
        stored_device_id(log_set_device_id(mem, id)) == id,
        stored_number_of_event(log_set_device_id(mem, id)) == stored_number_of_event(mem),
        forall|i: int|
            0 <= i && in_eeprom(mem, spec_event_address(i), EVENT_SIZE as int) ==> #[trigger] stored_event(
                log_set_device_id(mem, id),
                i,
            ) == stored_event(mem, i),
{
    let bytes = be_bytes_u64(id);
    lemma_read_written(mem, DEVICE_ID_ADDR as int, bytes);
    lemma_be_u64_roundtrip(id);
    lemma_read_elsewhere(mem, DEVICE_ID_ADDR as int, bytes, NUM_OF_EVENT_ADDR as int, 4);
    assert forall|i: int|
        0 <= i && in_eeprom(mem, spec_event_address(i), EVENT_SIZE as int) implies #[trigger] stored_event(
        log_set_device_id(mem, id),
        i,
    ) == stored_event(mem, i) by {
        lemma_read_elsewhere(mem, DEVICE_ID_ADDR as int, bytes, spec_event_address(i), 4);
    }
}

/// An operation on the event log that writes only past the device id.
#[derive(Debug, PartialEq, Eq, Structural, Clone, Copy)]
pub enum LogOp {
    /// `add_new_event` with the event.
    AddNew(Event),
    /// `add_or_overwrite_event` with the event and the overwrite delay.
    AddOrOverwrite(Event, u32),
    /// `remove_last_event`.
    RemoveLast,
    /// `clear_event_storage`.
    Clear,
}

/// The EEPROM after one operation.
pub open spec fn log_apply(mem: Seq<u8>, op: LogOp) -> Seq<u8> {
    match op {
        LogOp::AddNew(e) => log_add_new_event(mem, e),
        LogOp::AddOrOverwrite(e, d) => log_add_or_overwrite_event(mem, e, d),
        LogOp::RemoveLast => log_remove_last_event(mem),
        LogOp::Clear => log_clear(mem),
    }
}

/// Whether an operation's writes lie in the EEPROM, as they must for the operation to
/// succeed: the header always does; a new event's place must too when one is written.
pub open spec fn log_op_fits(mem: Seq<u8>, op: LogOp) -> bool {
    let slot_fits = in_eeprom(
        mem,
        spec_event_address(stored_number_of_event(mem) as int),
        EVENT_SIZE as int,
    );
    match op {
        LogOp::AddNew(_) => slot_fits,
        LogOp::AddOrOverwrite(e, d) => spec_overwrite_decision(log_get_event_from_end(mem, 0), e, d)
            == OverwriteDecision::AddNew ==> slot_fits,
        LogOp::RemoveLast => true,
        LogOp::Clear => true,
    }
}

/// The EEPROM after a sequence of operations, in order.
pub open spec fn log_apply_all(mem: Seq<u8>, ops: Seq<LogOp>) -> Seq<u8>
    decreases ops.len(),
{
    if ops.len() == 0 {
        mem
    } else {
        log_apply_all(log_apply(mem, ops[0]), ops.skip(1))
    }
}

/// Whether every operation of a sequence, each on the EEPROM the ones before it left,
/// writes within the EEPROM.
pub open spec fn log_ops_fit(mem: Seq<u8>, ops: Seq<LogOp>) -> bool
    decreases ops.len(),
{
    if ops.len() == 0 {
        true
    } else {
        log_op_fits(mem, ops[0]) && log_ops_fit(log_apply(mem, ops[0]), ops.skip(1))
    }
}

/// A write past the device id that lies in the EEPROM keeps the id and the size.
proof fn lemma_write_keeps_device_id(mem: Seq<u8>, addr: int, bytes: Seq<u8>)
    requires
        in_eeprom(mem, addr, bytes.len() as int),
        in_eeprom(mem, 0, 8),
        addr >= 8,
    ensures
        eeprom_write(mem, addr, bytes).len() == mem.len(),
        stored_device_id(eeprom_write(mem, addr, bytes)) == stored_device_id(mem),
{
    lemma_read_written(mem, addr, bytes);
    lemma_read_elsewhere(mem, addr, bytes, DEVICE_ID_ADDR as int, 8);
}

/// One operation keeps the device id and the size of the EEPROM.
pub proof fn lemma_op_keeps_device_id(mem: Seq<u8>, op: LogOp)
    requires
        in_eeprom(mem, 0, EVENT_ADDR as int),
        log_op_fits(mem, op),
    ensures
        log_apply(mem, op).len() == mem.len(),
        stored_device_id(log_apply(mem, op)) == stored_device_id(mem),
{
    let count = stored_number_of_event(mem);
    let header_after_add = |m: Seq<u8>| be_bytes_u32((stored_number_of_event(m) + 1) as u32);
    let adds = match op {
        LogOp::AddNew(_) => true,
        LogOp::AddOrOverwrite(e, d) => spec_overwrite_decision(log_get_event_from_end(mem, 0), e, d)
            == OverwriteDecision::AddNew,
        _ => false,
    };
    let e = match op {
        LogOp::AddNew(e) => e,
        LogOp::AddOrOverwrite(e, _) => e,
        _ => Event::Low(0),
    };
    if adds {
        let written = log_write_event(mem, e);
        lemma_write_keeps_device_id(mem, spec_event_address(count as int), event_record(e));
        lemma_write_keeps_device_id(written, NUM_OF_EVENT_ADDR as int, header_after_add(written));
        assert(log_add_new_event(mem, e) == eeprom_write(
            written,
            NUM_OF_EVENT_ADDR as int,
            header_after_add(written),
        ));
        assert(log_apply(mem, op) == log_add_new_event(mem, e));
    } else {
        match op {
            LogOp::Clear => {
                lemma_write_keeps_device_id(mem, NUM_OF_EVENT_ADDR as int, be_bytes_u32(0));
            },
            _ => {
                lemma_write_keeps_device_id(
                    mem,
                    NUM_OF_EVENT_ADDR as int,
                    be_bytes_u32((count - 1) as u32),
                );
                assert(log_apply(mem, op) == log_remove_last_event(mem));
            },
        }
    }
}

/// The device id survives any sequence of log operations (adding, adding or fusing,
/// removing, clearing) whose writes lie in the EEPROM: they write only past it.
pub proof fn lemma_device_id_survives(mem: Seq<u8>, ops: Seq<LogOp>)
    requires
        in_eeprom(mem, 0, EVENT_ADDR as int),
        log_ops_fit(mem, ops),
    ensures
        log_apply_all(mem, ops).len() == mem.len(),
        stored_device_id(log_apply_all(mem, ops)) == stored_device_id(mem),
    decreases ops.len(),
{
    if ops.len() > 0 {
        lemma_op_keeps_device_id(mem, ops[0]);
        lemma_device_id_survives(log_apply(mem, ops[0]), ops.skip(1));
    }
}

/// Once a device id is set, it reads back as that id after any sequence of log
/// operations whose writes lie in the EEPROM.
pub proof fn lemma_device_id_after_operations(mem: Seq<u8>, id: u64, ops: Seq<LogOp>)
    requires
        in_eeprom(mem, 0, EVENT_ADDR as int),
        log_ops_fit(log_set_device_id(mem, id), ops),
    ensures
        stored_device_id(log_apply_all(log_set_device_id(mem, id), ops)) == id,
{
    lemma_set_device_id(mem, id);
    let bytes = be_bytes_u64(id);
    lemma_read_written(mem, DEVICE_ID_ADDR as int, bytes);
    lemma_device_id_survives(log_set_device_id(mem, id), ops);
}

/// The layout of the log: the device id in bytes 0 to 7, the count in bytes 8 to 11,
/// the `n`-th event in the four bytes from `12 + 4 * n`.
pub proof fn lemma_log_layout(n: int)
    ensures
        DEVICE_ID_ADDR == 0,
        NUM_OF_EVENT_ADDR == 8,
        spec_event_address(n) == 12 + 4 * n,
        EVENT_SIZE == 4,
{
}

} // verus!
