//! A buffer that gathers the bytes of a frame as they arrive on the serial line.
use vstd::prelude::*;
use crate::link::bus_message::BusMessage;
use crate::link::convertion::{decode_object_if_complete, frame_complete};
use crate::link::messages_enums::Request;
use crate::link::response::Response;
use crate::link::wire::{spec_decode_frame, wire_frame, wire_payload, WireMessage};

verus! {

/// The bytes received so far, at most `N` of them.
pub struct RequestBuffer<const N: usize> {
    buffer: Vec<u8>,
}

/// What receiving one more byte into a buffer holding `bytes` leads to: the bytes held
/// afterwards and the message decoded, if any. A frame that is complete is decoded in
/// place; otherwise the bytes stay as they are.
pub open spec fn spec_receive<T: WireMessage>(bytes: Seq<u8>, byte: u8) -> (Seq<u8>, Option<T>) {
    let pushed = bytes.push(byte);
    if frame_complete(pushed) {
        let (m, image) = spec_decode_frame::<T>(pushed);
        (image, m)
    } else {
        (pushed, None)
    }
}

/// Receiving the bytes of a frame, whose only zero byte ends it, one at a time: every
/// byte before the last one is just kept, nothing is decoded.
pub proof fn lemma_receive_frame_prefix<T: WireMessage>(frame: Seq<u8>, k: int)
    requires
        forall|i: int| 0 <= i < frame.len() - 1 ==> frame[i] != 0,
        0 <= k < frame.len() - 1,
    ensures
        spec_receive::<T>(frame.take(k), frame[k]) == (frame.take(k + 1), None::<T>),
{
    assert(frame.take(k).push(frame[k]) =~= frame.take(k + 1));
}

/// What one call of `add_byte_and_check_for` on a buffer of capacity `n` does: from the
/// bytes held `before`, receiving `byte` leaves `after` and returns `r`. It fails, keeping
/// the bytes, exactly when the buffer is full; otherwise it receives the byte as
/// `spec_receive` says, and the byte that completes the frame of a message (a payload of
/// at most 253 bytes) hands back that message.
pub open spec fn receive_step<T: WireMessage>(
    n: nat,
    before: Seq<u8>,
    byte: u8,
    after: Seq<u8>,
    r: Result<Option<T>, ()>,
) -> bool {
    &&& (r is Err <==> before.len() >= n)
    &&& (r is Err ==> after == before)
    &&& (r matches Ok(m) ==> (after, m) == spec_receive::<T>(before, byte))
    &&& forall|m: T|
        before.push(byte) == #[trigger] wire_frame(m.wire_fields()) && wire_payload(
            m.wire_fields(),
        ).len() <= 253 && before.len() < n ==> r == Ok::<Option<T>, ()>(Some(m))
}

/// The buffer after the first `k` bytes of a frame, fed one at a time to an empty
/// buffer that has room for the whole frame: it holds those bytes, and no call has
/// returned anything but `Ok(None)`.
proof fn lemma_receive_frame_states<T: WireMessage>(
    n: nat,
    frame: Seq<u8>,
    states: Seq<Seq<u8>>,
    results: Seq<Result<Option<T>, ()>>,
    k: int,
)
    requires
        frame.len() >= 1,
        forall|i: int| 0 <= i < frame.len() - 1 ==> frame[i] != 0,
        frame.len() <= n,
        states.len() == frame.len() + 1,
        results.len() == frame.len(),
        states[0] == Seq::<u8>::empty(),
        forall|i: int|
            0 <= i < frame.len() ==> #[trigger] receive_step::<T>(
                n,
                states[i],
                frame[i],
                states[i + 1],
                results[i],
            ),
        0 <= k <= frame.len() - 1,
    ensures
        states[k] == frame.take(k),
        forall|i: int| 0 <= i < k ==> results[i] == Ok::<Option<T>, ()>(None),
    decreases k,
{
    if k == 0 {
        assert(frame.take(0) =~= Seq::<u8>::empty());
    } else {
        lemma_receive_frame_states::<T>(n, frame, states, results, k - 1);
        let j = k - 1;
        assert(receive_step::<T>(n, states[j], frame[j], states[j + 1], results[j]));
        lemma_receive_frame_prefix::<T>(frame, j);
    }
}

/// Feeding the frame of a message one byte at a time to an empty buffer with room for
/// it gives nothing for every byte but the last, and the message for the last. The
/// frame's only zero byte is its last one, as for every frame `encode_data` writes.
pub proof fn lemma_receive_whole_frame<T: WireMessage>(
    m: T,
    n: nat,
    frame: Seq<u8>,
    states: Seq<Seq<u8>>,
    results: Seq<Result<Option<T>, ()>>,
)
    requires
        frame == wire_frame(m.wire_fields()),
        wire_payload(m.wire_fields()).len() <= 253,
        forall|i: int| 0 <= i < frame.len() - 1 ==> frame[i] != 0,
        frame.len() <= n,
        states.len() == frame.len() + 1,
        results.len() == frame.len(),
        states[0] == Seq::<u8>::empty(),
        forall|i: int|
            0 <= i < frame.len() ==> #[trigger] receive_step::<T>(
                n,
                states[i],
                frame[i],
                states[i + 1],
                results[i],
            ),
    ensures
        forall|i: int| 0 <= i < frame.len() - 1 ==> results[i] == Ok::<Option<T>, ()>(None),
        results[frame.len() - 1] == Ok::<Option<T>, ()>(Some(m)),
{
    let last = frame.len() - 1;
    lemma_receive_frame_states::<T>(n, frame, states, results, last);
    assert(receive_step::<T>(n, states[last], frame[last], states[last + 1], results[last]));
    assert(states[last].push(frame[last]) =~= frame);
    assert(states[last].push(frame[last]) == wire_frame(m.wire_fields()));
}

impl<const N: usize> RequestBuffer<N> {
    /// Never more than `N` bytes are held.
    pub closed spec fn wf(self) -> bool {
        self.buffer@.len() <= N
    }

    /// The bytes held.
    pub closed spec fn bytes(self) -> Seq<u8> {
        self.buffer@
    }

    /// An empty buffer.
    pub fn new() -> (r: Self)
        ensures
            r.wf(),
            r.bytes() == Seq::<u8>::empty(),
    {
        RequestBuffer { buffer: Vec::new() }
    }

    /// The bytes held.
    pub fn as_slice(&self) -> (r: &[u8])
        ensures
            r@ == self.bytes(),
    {
        self.buffer.as_slice()
    }

    /// The number of bytes held, never more than `N`.
    pub fn len(&self) -> (r: usize)
        requires
            self.wf(),
        ensures
            r == self.bytes().len(),
            r <= N,
    {
        self.buffer.len()
    }

    /// Appends a byte; fails, leaving the buffer as it is, when `N` bytes are held.
    pub fn add_byte(&mut self, byte: &u8) -> (r: Result<(), ()>)
        requires
            old(self).wf(),
        ensures
            final(self).wf(),
            r is Ok <==> old(self).bytes().len() < N,
            r is Ok ==> final(self).bytes() == old(self).bytes().push(*byte),
            r is Err ==> final(self).bytes() == old(self).bytes(),
    {
        if self.buffer.len() < N {
            self.buffer.push(*byte);
            Ok(())
        } else {
            Err(())
        }
    }

    /// Appends a byte and, when the bytes end a frame, decodes a message from them in
    /// place. Fails, leaving the buffer as it is, when `N` bytes are held.
    pub fn add_byte_and_check_for<T: WireMessage>(&mut self, byte: &u8) -> (r: Result<Option<T>, ()>)
        requires
            old(self).wf(),
        ensures
            final(self).wf(),
            receive_step::<T>(N as nat, old(self).bytes(), *byte, final(self).bytes(), r),
    {
        self.add_byte(byte)?;
        let r = decode_object_if_complete::<T>(self.buffer.as_mut_slice());
        Ok(r)
    }

    /// Appends a byte and, when the bytes end a frame, decodes a response from them in
    /// place. Fails, leaving the buffer as it is, when `N` bytes are held.
    pub fn add_byte_and_check_for_response(&mut self, byte: &u8) -> (r: Result<Option<Response>, ()>)
        requires
            old(self).wf(),
        ensures
            final(self).wf(),
            receive_step::<Response>(N as nat, old(self).bytes(), *byte, final(self).bytes(), r),
    {
        self.add_byte(byte)?;
        let r = Response::decode_request_if_complete(self.buffer.as_mut_slice());
        Ok(r)
    }

    /// Appends a byte and, when the bytes end a frame, decodes a request from them in
    /// place. Fails, leaving the buffer as it is, when `N` bytes are held.
    pub fn add_byte_and_check_for_request(&mut self, byte: &u8) -> (r: Result<Option<Request>, ()>)
        requires
            old(self).wf(),
        ensures
            final(self).wf(),
            receive_step::<Request>(N as nat, old(self).bytes(), *byte, final(self).bytes(), r),
    {
        self.add_byte(byte)?;
        let r = Request::decode_request_if_complete(self.buffer.as_mut_slice());
        Ok(r)
    }

    /// Drops every byte held.
    pub fn clear_buffer(&mut self)
        requires
            old(self).wf(),
        ensures
            final(self).wf(),
            final(self).bytes() == Seq::<u8>::empty(),
    {
        self.buffer.clear();
    }
}

} // verus!
