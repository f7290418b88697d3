//! Framing of link messages: completeness of a frame, encoding and decoding.
use vstd::prelude::*;
use crate::link::messages_enums::{Request, Response};
use crate::link::wire::{
    fields_len, spec_frame_len,
    WireMessage, decode_frame, frame_buffer_bytes, frame_buffer_from_slice, spec_decode_frame,
    wire_frame, wire_payload, write_frame,
};

verus! {

/// The larger of two sizes.
pub open spec fn spec_max(a: usize, b: usize) -> usize {
    if a < b {
        b
    } else {
        a
    }
}

/// The larger of two sizes.
pub fn max(a: usize, b: usize) -> (r: usize)
    ensures
        r == spec_max(a, b),
{
    if a < b {
        b
    } else {
        a
    }
}

/// Bytes a frame adds to a postcard payload: the COBS overhead byte and the
/// terminating zero.
pub const COBS_OVERHEAD_SIZE: usize = 2;

/// The largest frame of a link message: the longest postcard payload of a request or
/// a response, plus the framing overhead.
pub const MAX_OBJECT_SIZE: usize = 13;

/// The frame buffer holds the largest payload of either message kind with its framing.
pub proof fn lemma_max_object_size()
    ensures
        MAX_OBJECT_SIZE == spec_max(Response::POSTCARD_MAX_SIZE, Request::POSTCARD_MAX_SIZE)
            + COBS_OVERHEAD_SIZE,
        Request::POSTCARD_MAX_SIZE <= MAX_OBJECT_SIZE,
        Response::POSTCARD_MAX_SIZE < MAX_OBJECT_SIZE,
{
}

/// A frame is complete when its last byte is the terminating zero.
pub open spec fn frame_complete(data: Seq<u8>) -> bool {
    data.len() > 0 && data.last() == 0
}

/// Whether `data` ends with the zero byte that terminates a frame.
pub fn is_object_complete(data: &mut [u8]) -> (r: bool)
    ensures
        r == frame_complete(old(data)@),
        final(data)@ == old(data)@,
{
    let n = data.len();
    if n == 0 {
        false
    } else {
        data[n - 1] == 0x00u8
    }
}

/// Decodes a message if `data` holds a complete frame (in place: the buffer then holds
/// the decoded bytes); leaves `data` as it is otherwise. The frame of a message decodes
/// to that message.
pub fn decode_object_if_complete<T: WireMessage>(data: &mut [u8]) -> (r: Option<T>)
    ensures
        frame_complete(old(data)@) ==> (r, final(data)@) == spec_decode_frame::<T>(old(data)@),
        !frame_complete(old(data)@) ==> r is None && final(data)@ == old(data)@,
        final(data)@.len() == old(data)@.len(),
        forall|m: T|
            old(data)@ == #[trigger] wire_frame(m.wire_fields()) && wire_payload(
                m.wire_fields(),
            ).len() <= 253 ==> r == Some(m),
{
    let ghost before = data@;
    if is_object_complete(data) {
        let r = decode_frame::<T>(data);
        proof {
            assert forall|m: T|
                before == #[trigger] wire_frame(m.wire_fields()) && wire_payload(
                    m.wire_fields(),
                ).len() <= 253 implies r == Some(m) by {
                assert(before == wire_frame(m.wire_fields()) + Seq::<u8>::empty());
            }
        }
        r
    } else {
        None
    }
}

/// Decodes a response frame in place (the buffer then holds the decoded bytes).
/// The frame of a response decodes to that response.
pub fn decode_response(data: &mut [u8]) -> (r: Option<Response>)
    ensures
        (r, final(data)@) == spec_decode_frame::<Response>(old(data)@),
        final(data)@.len() == old(data)@.len(),
        forall|m: Response|
            old(data)@ == #[trigger] wire_frame(m.wire_fields()) && wire_payload(
                m.wire_fields(),
            ).len() <= 253 ==> r == Some(m),
{
    let ghost before = data@;
    let r = decode_frame::<Response>(data);
    proof {
        assert forall|m: Response|
            before == #[trigger] wire_frame(m.wire_fields()) && wire_payload(
                m.wire_fields(),
            ).len() <= 253 implies r == Some(m) by {
            assert(before == wire_frame(m.wire_fields()) + Seq::<u8>::empty());
        }
    }
    r
}

/// Decodes a response if `data` holds a complete frame; leaves `data` as it is
/// otherwise. The frame of a response decodes to that response.
pub fn decode_response_if_complete(data: &mut [u8]) -> (r: Option<Response>)
    ensures
        frame_complete(old(data)@) ==> (r, final(data)@) == spec_decode_frame::<Response>(
            old(data)@,
        ),
        !frame_complete(old(data)@) ==> r is None && final(data)@ == old(data)@,
        final(data)@.len() == old(data)@.len(),
        forall|m: Response|
            old(data)@ == #[trigger] wire_frame(m.wire_fields()) && wire_payload(
                m.wire_fields(),
            ).len() <= 253 ==> r == Some(m),
{
    if is_object_complete(data) {
        decode_response(data)
    } else {
        None
    }
}

/// Decodes a request frame in place (the buffer then holds the decoded bytes).
/// The frame of a request decodes to that request.
pub fn decode_request(data: &mut [u8]) -> (r: Option<Request>)
    ensures
        (r, final(data)@) == spec_decode_frame::<Request>(old(data)@),
        final(data)@.len() == old(data)@.len(),
        forall|m: Request|
            old(data)@ == #[trigger] wire_frame(m.wire_fields()) && wire_payload(
                m.wire_fields(),
            ).len() <= 253 ==> r == Some(m),
{
    let ghost before = data@;
    let r = decode_frame::<Request>(data);
    proof {
        assert forall|m: Request|
            before == #[trigger] wire_frame(m.wire_fields()) && wire_payload(
                m.wire_fields(),
            ).len() <= 253 implies r == Some(m) by {
            assert(before == wire_frame(m.wire_fields()) + Seq::<u8>::empty());
        }
    }
    r
}

/// Decodes a request if `data` holds a complete frame; leaves `data` as it is
/// otherwise. The frame of a request decodes to that request.
pub fn decode_request_if_complete(data: &mut [u8]) -> (r: Option<Request>)
    ensures
        frame_complete(old(data)@) ==> (r, final(data)@) == spec_decode_frame::<Request>(
            old(data)@,
        ),
        !frame_complete(old(data)@) ==> r is None && final(data)@ == old(data)@,
        final(data)@.len() == old(data)@.len(),
        forall|m: Request|
            old(data)@ == #[trigger] wire_frame(m.wire_fields()) && wire_payload(
                m.wire_fields(),
            ).len() <= 253 ==> r == Some(m),
{
    if is_object_complete(data) {
        decode_request(data)
    } else {
        None
    }
}

/// Encodes a message into its frame: the COBS encoding of its postcard payload (the
/// varints of its fields) and a terminating zero, the only zero byte of the frame,
/// two bytes longer than the payload. Fails when the frame does not fit the frame
/// buffer, which never happens to a message type whose payload takes at most eleven
/// bytes.
pub fn encode_data<D: WireMessage>(object: D) -> (r: Result<heapless::Vec<u8, MAX_OBJECT_SIZE>, ()>)
    ensures
        r is Ok <==> wire_frame(object.wire_fields()).len() <= MAX_OBJECT_SIZE,
        r matches Ok(v) ==> frame_buffer_bytes(v) == wire_frame(object.wire_fields()),
        wire_frame(object.wire_fields()).len() == spec_frame_len(fields_len(object.wire_fields())),
        wire_payload(object.wire_fields()).len() == fields_len(object.wire_fields()),
        wire_payload(object.wire_fields()).len() <= D::postcard_max_size(),
        D::postcard_max_size() <= 11 ==> r is Ok,
        forall|i: int|
            0 <= i < wire_frame(object.wire_fields()).len() - 1 ==> #[trigger] wire_frame(
                object.wire_fields(),
            )[i] != 0,
{
    let frame = write_frame(&object);
    frame_buffer_from_slice(frame.as_slice())
}

} // verus!
