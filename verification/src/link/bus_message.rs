//! Messages that travel on the serial bus as frames of at most `N` bytes.
use vstd::prelude::*;
use crate::link::convertion::frame_complete;
use crate::link::wire::{WireMessage, spec_decode_frame, wire_frame, wire_payload};

verus! {

/// A message that travels on the bus as a COBS frame of at most `N` bytes.
pub trait BusMessage<const N: usize>: WireMessage {
    /// Whether `data` ends with the zero byte that terminates a frame.
    fn is_message_complete(data: &[u8]) -> (r: bool)
        ensures
            r == frame_complete(data@),
    ;

    /// Decodes a frame in place (the buffer then holds the decoded bytes).
    fn decode(data: &mut [u8]) -> (r: Option<Self>)
        ensures
            (r, final(data)@) == spec_decode_frame::<Self>(old(data)@),
            final(data)@.len() == old(data)@.len(),
            forall|m: Self|
                old(data)@ == #[trigger] wire_frame(m.wire_fields()) && wire_payload(
                    m.wire_fields(),
                ).len() <= 253 ==> r == Some(m),
    ;

    /// Decodes a message if `data` holds a complete frame; leaves `data` as it is
    /// otherwise.
    fn decode_request_if_complete(data: &mut [u8]) -> (r: Option<Self>)
        ensures
            frame_complete(old(data)@) ==> (r, final(data)@) == spec_decode_frame::<Self>(
                old(data)@,
            ),
            !frame_complete(old(data)@) ==> r is None && final(data)@ == old(data)@,
            final(data)@.len() == old(data)@.len(),
            forall|m: Self|
                old(data)@ == #[trigger] wire_frame(m.wire_fields()) && wire_payload(
                    m.wire_fields(),
                ).len() <= 253 ==> r == Some(m),
    ;

    /// Encodes this message into its frame.
    fn encode_message(&self) -> (r: Result<heapless::Vec<u8, N>, ()>);
}

} // verus!
