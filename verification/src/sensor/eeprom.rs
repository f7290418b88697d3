//! The first layout of the sensor's EEPROM and the rule for retrying a write.
//!
//! The number of stored events takes the first four bytes (little-endian), the sensor
//! id the next eight (little-endian), and the events follow, each in a slot as large as
//! the longest postcard encoding of an event.
use vstd::prelude::*;
use vstd::bytes::{spec_u32_from_le_bytes, spec_u32_to_le_bytes, spec_u64_from_le_bytes, spec_u64_to_le_bytes, u32_from_le_bytes, u32_to_le_bytes, u64_from_le_bytes, u64_to_le_bytes};

verus! {

/// Address of the number of stored events.
pub const COUNT_ADDRESS: u32 = 0;

/// Bytes taken by the number of stored events.
pub const COUNT_SIZE: u32 = 4;

/// Address of the sensor id.
pub const SENSOR_ID_ADDRESS: u32 = COUNT_SIZE;

/// Bytes taken by the sensor id.
pub const SENSOR_ID_SIZE: u32 = 8;

/// Address of the first event.
pub const EVENT_ADDRESS: u32 = SENSOR_ID_ADDRESS + SENSOR_ID_SIZE;

/// Bytes of one event slot: the longest postcard encoding of an event, a five-byte
/// timestamp and a one-byte event type.
pub const EVENT_SIZE: u32 = 6;

/// Address of the event slot `count`.
pub open spec fn spec_event_adress(count: int) -> int {
    EVENT_ADDRESS + EVENT_SIZE * count
}

/// Address of the event slot `count`. The address must fit a `u32`.
pub fn get_event_adress(count: u32) -> (r: u32)
    requires
        spec_event_adress(count as int) <= u32::MAX,
    ensures
        r == spec_event_adress(count as int),
{
    EVENT_ADDRESS + (EVENT_SIZE as u32 * count)
}

/// The number of stored events kept in four little-endian bytes.
pub fn decode_count(data: &[u8]) -> (r: u32)
    requires
        data@.len() == COUNT_SIZE,
    ensures
        r == spec_u32_from_le_bytes(data@),
{
    u32_from_le_bytes(data)
}

/// The four little-endian bytes that keep a number of stored events.
pub fn encode_count(count: u32) -> (r: Vec<u8>)
    ensures
        r@ == spec_u32_to_le_bytes(count),
        r@.len() == COUNT_SIZE,
{
    proof {
        vstd::bytes::lemma_auto_spec_u32_to_from_le_bytes();
        assert(spec_u32_to_le_bytes(count).len() == 4);
    }
    u32_to_le_bytes(count)
}

/// The number of stored events after one more is stored. The count must not
/// overflow.
pub fn incremented_count(count: u32) -> (r: u32)
    requires
        count < u32::MAX,
    ensures
        r == count + 1,
{
    count + 1
}

/// The sensor id kept in eight little-endian bytes.
pub fn decode_sensor_id(data: &[u8]) -> (r: u64)
    requires
        data@.len() == SENSOR_ID_SIZE,
    ensures
        r == spec_u64_from_le_bytes(data@),
{
    u64_from_le_bytes(data)
}

/// The eight little-endian bytes that keep a sensor id.
pub fn encode_sensor_id(id: u64) -> (r: Vec<u8>)
    ensures
        r@ == spec_u64_to_le_bytes(id),
        r@.len() == SENSOR_ID_SIZE,
{
    proof {
        vstd::bytes::lemma_auto_spec_u64_to_from_le_bytes();
        assert(spec_u64_to_le_bytes(id).len() == 8);
    }
    u64_to_le_bytes(id)
}

/// A count or a sensor id reads back as written.
pub proof fn lemma_le_roundtrip(count: u32, id: u64)
    ensures
        spec_u32_from_le_bytes(spec_u32_to_le_bytes(count)) == count,
        spec_u64_from_le_bytes(spec_u64_to_le_bytes(id)) == id,
{
    vstd::bytes::lemma_auto_spec_u32_to_from_le_bytes();
    vstd::bytes::lemma_auto_spec_u64_to_from_le_bytes();
    assert(spec_u32_to_le_bytes(count).len() == 4);
    assert(spec_u64_to_le_bytes(id).len() == 8);
}

/// Address of the byte `offset` of data written at `address`. It must fit a `u32`.
pub fn byte_address(address: u32, offset: usize) -> (r: u32)
    requires
        address + offset <= u32::MAX,
    ensures
        r == address + offset,
{
    address + offset as u32
}

/// Why the EEPROM refused to write a byte: the bus was busy (the chip does not answer
/// while it completes a write), too much data, or an address out of the chip.
#[derive(PartialEq, Eq, Structural, Clone, Copy)]
pub enum EepromWriteError {
    I2C,
    TooMuchData,
    InvalidAddr,
}

/// Whether writing a byte is tried again after this error: only a busy bus is waited
/// out; the other errors fail the write.
pub fn write_is_retried(error: EepromWriteError) -> (r: bool)
    ensures
        r <==> error == EepromWriteError::I2C,
{
    match error {
        EepromWriteError::I2C => true,
        EepromWriteError::TooMuchData => false,
        EepromWriteError::InvalidAddr => false,
    }
}

/// The first layout: the count in bytes 0 to 3, the sensor id in bytes 4 to 11, the
/// event slot `n` in the six bytes from `12 + 6 * n`; slots never overlap the header
/// nor each other.
pub proof fn lemma_first_layout(n: int, m: int)
    requires
        0 <= n < m,
    ensures
        COUNT_ADDRESS == 0,
        SENSOR_ID_ADDRESS == 4,
        spec_event_adress(n) == 12 + 6 * n,
        spec_event_adress(n) >= SENSOR_ID_ADDRESS + SENSOR_ID_SIZE,
        spec_event_adress(n) + EVENT_SIZE <= spec_event_adress(m),
{
}

} // verus!
