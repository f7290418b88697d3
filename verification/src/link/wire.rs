//! The postcard wire format of the link messages and its COBS framing.
//!
//! A message is a short list of integer fields (the variant index first, then the
//! payload); each field is written with postcard, the concatenation is COBS-encoded
//! and a zero byte ends the frame.
use vstd::prelude::*;
use crate::link::convertion::MAX_OBJECT_SIZE;

verus! {

#[verifier::external_type_specification]
#[verifier::external_body]
pub struct ExPostcardError(postcard::Error);

#[verifier::external_type_specification]
#[verifier::external_body]
#[verifier::reject_recursive_types(T)]
pub struct ExHeaplessVec<T, const N: usize>(heapless::Vec<T, N>);

/// One integer field of a message, as postcard writes it.
#[derive(Clone, Copy)]
pub enum WireField {
    U32(u32),
    U64(u64),
    I64(i64),
}

/// The bytes postcard writes for a `u32`: its varint.
pub open spec fn postcard_u32_bytes(x: u32) -> Seq<u8> {
    varint_bytes(x as nat)
}

/// The bytes postcard writes for a `u64`: its varint.
pub open spec fn postcard_u64_bytes(x: u64) -> Seq<u8> {
    varint_bytes(x as nat)
}

/// The bytes postcard writes for an `i64`: the varint of its zig-zag image.
pub open spec fn postcard_i64_bytes(x: i64) -> Seq<u8> {
    varint_bytes(zig_zag(x))
}

/// What `postcard::take_from_bytes::<u32>` reads from `bytes`: the value and the
/// number of bytes it used.
pub uninterp spec fn postcard_take_u32(bytes: Seq<u8>) -> Option<(u32, nat)>;

/// What `postcard::take_from_bytes::<u64>` reads from `bytes`.
pub uninterp spec fn postcard_take_u64(bytes: Seq<u8>) -> Option<(u64, nat)>;

/// What `postcard::take_from_bytes::<i64>` reads from `bytes`.
pub uninterp spec fn postcard_take_i64(bytes: Seq<u8>) -> Option<(i64, nat)>;

/// The COBS encoding of a message shorter than 254 bytes, as `cobs::encode_vec` writes
/// it: nothing for the empty message, its blocks otherwise.
pub open spec fn cobs_encoding(bytes: Seq<u8>) -> Seq<u8> {
    if bytes.len() == 0 {
        Seq::empty()
    } else {
        cobs_blocks(bytes)
    }
}

/// What `cobs::decode_in_place` does to a buffer: the length of the decoded
/// message (none on a decoding error) and the buffer afterwards.
pub uninterp spec fn cobs_decoding_in_place(bytes: Seq<u8>) -> (Option<nat>, Seq<u8>);

/// The bytes held by a frame buffer.
pub uninterp spec fn frame_buffer_bytes(v: heapless::Vec<u8, MAX_OBJECT_SIZE>) -> Seq<u8>;

/// The number of bytes of the varint of `x`: one per group of seven bits, at least
/// one.
pub open spec fn varint_len(x: nat) -> nat
    decreases x,
{
    if x < 128 {
        1
    } else {
        1 + varint_len(x / 128)
    }
}

/// The varint bytes of `x`: little-endian groups of seven bits, each byte but the last
/// with its high bit set.
pub open spec fn varint_bytes(x: nat) -> Seq<u8>
    decreases x,
{
    if x < 128 {
        seq![x as u8]
    } else {
        seq![(x % 128 + 128) as u8] + varint_bytes(x / 128)
    }
}

/// The place of the first zero byte of `p`, or its length when it holds none.
pub open spec fn first_zero(p: Seq<u8>) -> nat
    decreases p.len(),
{
    if p.len() == 0 {
        0
    } else if p[0] == 0 {
        0
    } else {
        1 + first_zero(p.skip(1))
    }
}

/// The COBS blocks of a message shorter than 254 bytes: for each run of non-zero
/// bytes up to a zero (or the end), one code byte (the run's length plus one), then
/// the run; the zero itself is dropped.
pub open spec fn cobs_blocks(p: Seq<u8>) -> Seq<u8>
    decreases p.len(),
{
    let i = first_zero(p);
    if i >= p.len() {
        seq![(p.len() + 1) as u8] + p
    } else {
        seq![(i + 1) as u8] + p.take(i as int) + cobs_blocks(p.skip((i + 1) as int))
    }
}

/// `128` to the power `k`.
pub open spec fn pow128(k: nat) -> nat
    decreases k,
{
    if k == 0 {
        1
    } else {
        128 * pow128((k - 1) as nat)
    }
}

/// A value below `128^k` takes at most `k` varint bytes.
pub proof fn lemma_varint_len_bound(x: nat, k: nat)
    requires
        1 <= k,
        x < pow128(k),
    ensures
        varint_len(x) <= k,
    decreases k,
{
    if x >= 128 {
        let p = pow128((k - 1) as nat);
        assert(x / 128 < p) by (nonlinear_arith)
            requires
                x < 128 * p,
        ;
        if k == 1 {
            assert(pow128(1) == 128 * pow128(0));
        }
        lemma_varint_len_bound(x / 128, (k - 1) as nat);
    }
}

/// The zig-zag image of an `i64`, which postcard writes as a varint: `2x` for
/// `x >= 0`, `-2x - 1` below.
pub open spec fn zig_zag(x: i64) -> nat {
    if x >= 0 {
        (2 * x) as nat
    } else {
        (-2 * x - 1) as nat
    }
}

/// Writes a `u32` with `postcard::to_allocvec`. Postcard writes it as a varint
/// (little-endian groups of seven bits): one byte per group, a single byte equal to
/// the value below 128. Writing to a growable vector never fails.
#[verifier::external_body]
fn postcard_write_u32(x: u32) -> (r: Result<Vec<u8>, postcard::Error>)
    ensures
        r is Ok,
        r matches Ok(v) ==> v@ == postcard_u32_bytes(x) && v@.len()
            == varint_len(x as nat) && (x < 128 ==> v@ == seq![x as u8]),
{
    postcard::to_allocvec(&x)
}

/// Writes a `u64` with `postcard::to_allocvec`: a varint, one byte per group of seven
/// bits. Writing to a growable vector never fails.
#[verifier::external_body]
fn postcard_write_u64(x: u64) -> (r: Result<Vec<u8>, postcard::Error>)
    ensures
        r is Ok,
        r matches Ok(v) ==> v@ == postcard_u64_bytes(x) && v@.len()
            == varint_len(x as nat),
{
    postcard::to_allocvec(&x)
}

/// Writes an `i64` with `postcard::to_allocvec`: the varint of its zig-zag image.
/// Writing to a growable vector never fails.
#[verifier::external_body]
fn postcard_write_i64(x: i64) -> (r: Result<Vec<u8>, postcard::Error>)
    ensures
        r is Ok,
        r matches Ok(v) ==> v@ == postcard_i64_bytes(x) && v@.len()
            == varint_len(zig_zag(x)),
{
    postcard::to_allocvec(&x)
}

/// Reads a `u32` from the front of `s` with `postcard::take_from_bytes`, which hands
/// back the unread end of `s`. Reading what postcard wrote for a value, followed by
/// any bytes, gives back that value and those bytes.
#[verifier::external_body]
fn postcard_read_u32(s: &[u8]) -> (r: Result<(u32, &[u8]), postcard::Error>)
    ensures
        r matches Ok((v, rest)) ==> rest@.len() < s@.len() && rest@ == s@.skip(
            s@.len() - rest@.len(),
        ) && postcard_take_u32(s@) == Some((v, (s@.len() - rest@.len()) as nat)),
        r is Err ==> postcard_take_u32(s@) is None,
        forall|x: u32, tail: Seq<u8>|
            s@ == #[trigger] (postcard_u32_bytes(x) + tail) ==> r is Ok && r->Ok_0.0 == x
                && r->Ok_0.1@ == tail,
{
    postcard::take_from_bytes::<u32>(s)
}

/// Reads a `u64` from the front of `s` with `postcard::take_from_bytes`.
#[verifier::external_body]
fn postcard_read_u64(s: &[u8]) -> (r: Result<(u64, &[u8]), postcard::Error>)
    ensures
        r matches Ok((v, rest)) ==> rest@.len() < s@.len() && rest@ == s@.skip(
            s@.len() - rest@.len(),
        ) && postcard_take_u64(s@) == Some((v, (s@.len() - rest@.len()) as nat)),
        r is Err ==> postcard_take_u64(s@) is None,
        forall|x: u64, tail: Seq<u8>|
            s@ == #[trigger] (postcard_u64_bytes(x) + tail) ==> r is Ok && r->Ok_0.0 == x
                && r->Ok_0.1@ == tail,
{
    postcard::take_from_bytes::<u64>(s)
}

/// Reads an `i64` from the front of `s` with `postcard::take_from_bytes`.
#[verifier::external_body]
fn postcard_read_i64(s: &[u8]) -> (r: Result<(i64, &[u8]), postcard::Error>)
    ensures
        r matches Ok((v, rest)) ==> rest@.len() < s@.len() && rest@ == s@.skip(
            s@.len() - rest@.len(),
        ) && postcard_take_i64(s@) == Some((v, (s@.len() - rest@.len()) as nat)),
        r is Err ==> postcard_take_i64(s@) is None,
        forall|x: i64, tail: Seq<u8>|
            s@ == #[trigger] (postcard_i64_bytes(x) + tail) ==> r is Ok && r->Ok_0.0 == x
                && r->Ok_0.1@ == tail,
{
    postcard::take_from_bytes::<i64>(s)
}

/// COBS-encodes `p` with `cobs::encode_vec` (no terminating zero). For a message
/// shorter than 254 bytes the encoding is exactly one byte longer (the encoder writes
/// one code byte per block, and such a message is one block), except the empty message,
/// whose encoding is empty; it holds no zero byte.
#[verifier::external_body]
fn cobs_encode(p: &[u8]) -> (r: Vec<u8>)
    requires
        p@.len() <= 253,
    ensures
        r@ == cobs_encoding(p@),
        p@.len() == 0 ==> r@.len() == 0,
        p@.len() > 0 ==> r@.len() == p@.len() + 1,
        forall|i: int| 0 <= i < r@.len() ==> r@[i] != 0,
{
    cobs::encode_vec(p)
}

/// Decodes a COBS frame in place with `cobs::decode_in_place`, up to the first zero
/// byte. The buffer keeps its length; the decoded message is its prefix of the
/// returned length. The encoding of a short message, then a zero, then any bytes,
/// decodes to that message.
#[verifier::external_body]
fn cobs_decode_in_place(buf: &mut [u8]) -> (r: Result<usize, ()>)
    ensures
        (match r {
            Ok(n) => Some(n as nat),
            Err(_) => None,
        }, final(buf)@) == cobs_decoding_in_place(old(buf)@),
        final(buf)@.len() == old(buf)@.len(),
        r matches Ok(n) ==> n <= old(buf)@.len(),
        forall|p: Seq<u8>, tail: Seq<u8>|
            p.len() <= 253 && old(buf)@ == #[trigger] (cobs_encoding(p).push(0) + tail) ==> (r
                == Ok::<usize, ()>(p.len() as usize) && final(buf)@.take(p.len() as int) == p),
{
    cobs::decode_in_place(buf)
}

/// Copies `bytes` into a frame buffer with `heapless::Vec::from_slice`, which fails
/// when they do not fit.
#[verifier::external_body]
pub(crate) fn frame_buffer_from_slice(bytes: &[u8]) -> (r: Result<heapless::Vec<u8, MAX_OBJECT_SIZE>, ()>)
    ensures
        r is Ok <==> bytes@.len() <= MAX_OBJECT_SIZE,
        r matches Ok(v) ==> frame_buffer_bytes(v) == bytes@,
{
    heapless::Vec::from_slice(bytes)
}

/// The bytes postcard writes for one field.
pub open spec fn field_bytes(f: WireField) -> Seq<u8> {
    match f {
        WireField::U32(x) => postcard_u32_bytes(x),
        WireField::U64(x) => postcard_u64_bytes(x),
        WireField::I64(x) => postcard_i64_bytes(x),
    }
}

/// The number of bytes postcard writes for one field.
pub open spec fn field_len(f: WireField) -> nat {
    match f {
        WireField::U32(x) => varint_len(x as nat),
        WireField::U64(x) => varint_len(x as nat),
        WireField::I64(x) => varint_len(zig_zag(x)),
    }
}

/// The number of bytes of the payload of a list of fields.
pub open spec fn fields_len(fields: Seq<WireField>) -> nat
    decreases fields.len(),
{
    if fields.len() == 0 {
        0
    } else {
        fields_len(fields.drop_last()) + field_len(fields.last())
    }
}

/// No field takes more bytes than its bound.
pub proof fn lemma_field_len_bound(f: WireField)
    ensures
        field_len(f) <= field_size_bound(f),
{
    reveal_with_fuel(pow128, 11);
    match f {
        WireField::U32(x) => {
            if x >= 128 {
                lemma_varint_len_bound(x as nat, 5);
            }
        },
        WireField::U64(x) => {
            lemma_varint_len_bound(x as nat, 10);
        },
        WireField::I64(x) => {
            lemma_varint_len_bound(zig_zag(x), 10);
        },
    }
}

/// The most bytes postcard writes for one field.
pub open spec fn field_size_bound(f: WireField) -> nat {
    match f {
        WireField::U32(x) => if x < 128 { 1 } else { 5 },
        WireField::U64(_) => 10,
        WireField::I64(_) => 10,
    }
}

/// The postcard payload of a list of fields: their bytes one after the other.
pub open spec fn wire_payload(fields: Seq<WireField>) -> Seq<u8>
    decreases fields.len(),
{
    if fields.len() == 0 {
        Seq::empty()
    } else {
        wire_payload(fields.drop_last()) + field_bytes(fields.last())
    }
}

/// The most bytes the payload of a list of fields can take.
pub open spec fn fields_size_bound(fields: Seq<WireField>) -> nat
    decreases fields.len(),
{
    if fields.len() == 0 {
        0
    } else {
        fields_size_bound(fields.drop_last()) + field_size_bound(fields.last())
    }
}

/// The frame of a list of fields: the COBS encoding of the payload, then a zero.
pub open spec fn wire_frame(fields: Seq<WireField>) -> Seq<u8> {
    cobs_encoding(wire_payload(fields)).push(0)
}

/// A payload of one field is that field's bytes.
pub proof fn lemma_payload_one(a: WireField)
    ensures
        wire_payload(seq![a]) == field_bytes(a),
{
    assert(seq![a].drop_last() =~= Seq::<WireField>::empty());
    assert(wire_payload(seq![a].drop_last()) =~= Seq::<u8>::empty());
    assert(Seq::<u8>::empty() + field_bytes(a) =~= field_bytes(a));
}

/// A payload of two fields is their bytes one after the other.
pub proof fn lemma_payload_two(a: WireField, b: WireField)
    ensures
        wire_payload(seq![a, b]) == field_bytes(a) + field_bytes(b),
{
    assert(seq![a, b].drop_last() =~= seq![a]);
    lemma_payload_one(a);
}

/// A variant index below 128 is written as the single byte of its value.
pub proof fn lemma_small_varint(k: u32)
    requires
        k < 128,
    ensures
        postcard_u32_bytes(k) == seq![k as u8],
        field_bytes(WireField::U32(k)) == seq![k as u8],
{
}

/// The payload of a message made of a variant index below 128 alone is that one byte,
/// and its frame is `[1, 1, 0]` for index 0 and `[2, k, 0]` for any other index `k`.
pub proof fn lemma_tag_only_frame(k: u32)
    requires
        k < 128,
    ensures
        wire_payload(seq![WireField::U32(k)]) == seq![k as u8],
        wire_frame(seq![WireField::U32(k)]) == (if k == 0 {
            seq![1u8, 1u8, 0u8]
        } else {
            seq![2u8, k as u8, 0u8]
        }),
{
    lemma_payload_one(WireField::U32(k));
    lemma_small_varint(k);
    let p = seq![k as u8];
    reveal_with_fuel(first_zero, 2);
    reveal_with_fuel(cobs_blocks, 2);
    if k == 0 {
        assert(first_zero(p) == 0);
        assert(p.skip(1) =~= Seq::<u8>::empty());
        assert(first_zero(p.skip(1)) == 0);
        assert(cobs_blocks(p.skip(1)) =~= seq![1u8]);
        assert(p.take(0) =~= Seq::<u8>::empty());
        assert(cobs_blocks(p) =~= seq![1u8, 1u8]);
        assert(wire_frame(seq![WireField::U32(k)]) =~= seq![1u8, 1u8, 0u8]);
    } else {
        assert(p.skip(1) =~= Seq::<u8>::empty());
        assert(first_zero(p) == 1);
        assert(cobs_blocks(p) =~= seq![2u8, k as u8]);
        assert(wire_frame(seq![WireField::U32(k)]) =~= seq![2u8, k as u8, 0u8]);
    }
}

/// The payload of a variant index below 128 and one field is the index's byte, then
/// the field's bytes.
pub proof fn lemma_tag_and_field(k: u32, a: WireField)
    requires
        k < 128,
    ensures
        wire_payload(seq![WireField::U32(k), a]) == seq![k as u8] + field_bytes(a),
{
    lemma_payload_two(WireField::U32(k), a);
    lemma_small_varint(k);
}

/// The payload of a variant index below 128 and two fields is the index's byte, then
/// the fields' bytes in order.
pub proof fn lemma_tag_and_two_fields(k: u32, a: WireField, b: WireField)
    requires
        k < 128,
    ensures
        wire_payload(seq![WireField::U32(k), a, b]) == seq![k as u8] + field_bytes(a) + field_bytes(
            b,
        ),
{
    lemma_payload_three(WireField::U32(k), a, b);
    lemma_small_varint(k);
    assert(seq![k as u8] + (field_bytes(a) + field_bytes(b)) =~= seq![k as u8] + field_bytes(a)
        + field_bytes(b));
}

/// A payload of three fields is their bytes one after the other.
pub proof fn lemma_payload_three(a: WireField, b: WireField, c: WireField)
    ensures
        wire_payload(seq![a, b, c]) == field_bytes(a) + (field_bytes(b) + field_bytes(c)),
{
    assert(seq![a, b, c].drop_last() =~= seq![a, b]);
    lemma_payload_two(a, b);
    assert(field_bytes(a) + field_bytes(b) + field_bytes(c) =~= field_bytes(a) + (field_bytes(b)
        + field_bytes(c)));
}

/// A message type with a postcard wire format made of integer fields.
pub trait WireMessage: Sized {
    /// The fields postcard writes for this message, variant index first.
    spec fn wire_fields(&self) -> Seq<WireField>;

    /// The message read from a decoded payload, if any.
    spec fn parse_wire(payload: Seq<u8>) -> Option<Self>;

    /// The fields postcard writes for this message.
    fn fields(&self) -> (r: Vec<WireField>)
        ensures
            r@ == self.wire_fields(),
    ;

    /// Reads a message from a decoded payload. The payload of a message reads back
    /// as that message.
    fn parse(payload: &[u8]) -> (r: Option<Self>)
        ensures
            r == Self::parse_wire(payload@),
            forall|m: Self| payload@ == wire_payload(#[trigger] m.wire_fields()) ==> r == Some(m),
    ;

    /// The longest postcard payload of this message type.
    spec fn postcard_max_size() -> nat;

    /// No payload of this message type is longer than its largest size, which is
    /// short enough for one COBS block.
    proof fn lemma_fields_size(&self)
        ensures
            fields_size_bound(self.wire_fields()) <= Self::postcard_max_size(),
            Self::postcard_max_size() <= 253,
    ;
}

/// Writes one field with postcard.
fn write_field(f: WireField) -> (r: Result<Vec<u8>, postcard::Error>)
    ensures
        r matches Ok(v) && v@ == field_bytes(f) && v@.len() == field_len(f)
            && v@.len() <= field_size_bound(f),
{
    proof {
        lemma_field_len_bound(f);
    }
    match f {
        WireField::U32(x) => postcard_write_u32(x),
        WireField::U64(x) => postcard_write_u64(x),
        WireField::I64(x) => postcard_write_i64(x),
    }
}

/// Writes the postcard payload of a list of fields.
pub fn write_payload(fields: &Vec<WireField>) -> (r: Vec<u8>)
    ensures
        r@ == wire_payload(fields@),
        r@.len() == fields_len(fields@),
        r@.len() <= fields_size_bound(fields@),
{
    let mut payload: Vec<u8> = Vec::new();
    let mut i: usize = 0;
    while i < fields.len()
        invariant
            i <= fields@.len(),
            payload@ == wire_payload(fields@.take(i as int)),
            payload@.len() == fields_len(fields@.take(i as int)),
            payload@.len() <= fields_size_bound(fields@.take(i as int)),
        decreases fields@.len() - i,
    {
        let mut bytes = match write_field(fields[i]) {
            Ok(b) => b,
            Err(_) => {
                assert(false);
                Vec::new()
            },
        };
        proof {
            assert(fields@.take(i + 1).drop_last() =~= fields@.take(i as int));
        }
        payload.append(&mut bytes);
        i = i + 1;
    }
    assert(fields@.take(i as int) =~= fields@);
    payload
}

/// The length of the frame of a payload of `n <= 253` bytes: its COBS encoding (one
/// code byte more, none for an empty payload) and the terminating zero.
pub open spec fn spec_frame_len(n: nat) -> nat {
    if n == 0 {
        1
    } else {
        n + 2
    }
}

/// Frames a message: the COBS encoding of its postcard payload, then a zero byte.
pub fn write_frame<D: WireMessage>(object: &D) -> (r: Vec<u8>)
    ensures
        r@ == wire_frame(object.wire_fields()),
        r@.len() <= D::postcard_max_size() + 2,
        wire_payload(object.wire_fields()).len() == fields_len(object.wire_fields()),
        r@.len() == spec_frame_len(fields_len(object.wire_fields())),
        forall|i: int| 0 <= i < r@.len() - 1 ==> r@[i] != 0,
        wire_payload(object.wire_fields()).len() <= D::postcard_max_size(),
{
    let fields = object.fields();
    let payload = write_payload(&fields);
    proof {
        object.lemma_fields_size();
    }
    let mut frame = cobs_encode(payload.as_slice());
    frame.push(0);
    frame
}

/// The result of decoding a frame in place, and the buffer afterwards.
pub open spec fn spec_decode_frame<T: WireMessage>(bytes: Seq<u8>) -> (Option<T>, Seq<u8>) {
    let (n, image) = cobs_decoding_in_place(bytes);
    match n {
        Some(n) => (T::parse_wire(image.take(n as int)), image),
        None => (None, image),
    }
}

/// Decodes a frame in place and reads a message from it. The frame of a message,
/// then any bytes, decodes to that message.
pub fn decode_frame<T: WireMessage>(data: &mut [u8]) -> (r: Option<T>)
    ensures
        (r, final(data)@) == spec_decode_frame::<T>(old(data)@),
        final(data)@.len() == old(data)@.len(),
        forall|m: T, tail: Seq<u8>|
            old(data)@ == #[trigger] (wire_frame(m.wire_fields()) + tail) && wire_payload(
                m.wire_fields(),
            ).len() <= 253 ==> r == Some(m),
{
    let ghost before = data@;
    match cobs_decode_in_place(data) {
        Ok(n) => {
            let (decoded, _) = data.split_at(n);
            let r = T::parse(decoded);
            proof {
                assert(decoded@ =~= data@.take(n as int));
                assert forall|m: T, tail: Seq<u8>|
                    before == #[trigger] (wire_frame(m.wire_fields()) + tail) && wire_payload(
                        m.wire_fields(),
                    ).len() <= 253 implies r == Some(m) by {
                    let p = wire_payload(m.wire_fields());
                    assert(before == cobs_encoding(p).push(0) + tail);
                    assert(decoded@ == p);
                }
            }
            r
        },
        Err(_) => {
            proof {
                assert forall|m: T, tail: Seq<u8>|
                    before == #[trigger] (wire_frame(m.wire_fields()) + tail) && wire_payload(
                        m.wire_fields(),
                    ).len() <= 253 implies false by {
                    let p = wire_payload(m.wire_fields());
                    assert(before == cobs_encoding(p).push(0) + tail);
                }
            }
            None
        },
    }
}

/// Reads a `u32` field from the front of `s`, with the unread end of `s`.
pub fn read_u32(s: &[u8]) -> (r: Option<(u32, &[u8])>)
    ensures
        match r {
            Some((v, rest)) => rest@.len() < s@.len() && rest@ == s@.skip(s@.len() - rest@.len())
                && postcard_take_u32(s@) == Some((v, (s@.len() - rest@.len()) as nat)),
            None => postcard_take_u32(s@) is None,
        },
        forall|x: u32, tail: Seq<u8>|
            s@ == #[trigger] (postcard_u32_bytes(x) + tail) ==> (r matches Some((v, rest)) && v == x
                && rest@ == tail),
{
    match postcard_read_u32(s) {
        Ok((v, rest)) => Some((v, rest)),
        Err(_) => None,
    }
}

/// Reads a `u64` field from the front of `s`, with the unread end of `s`.
pub fn read_u64(s: &[u8]) -> (r: Option<(u64, &[u8])>)
    ensures
        match r {
            Some((v, rest)) => rest@.len() < s@.len() && rest@ == s@.skip(s@.len() - rest@.len())
                && postcard_take_u64(s@) == Some((v, (s@.len() - rest@.len()) as nat)),
            None => postcard_take_u64(s@) is None,
        },
        forall|x: u64, tail: Seq<u8>|
            s@ == #[trigger] (postcard_u64_bytes(x) + tail) ==> (r matches Some((v, rest)) && v == x
                && rest@ == tail),
{
    match postcard_read_u64(s) {
        Ok((v, rest)) => Some((v, rest)),
        Err(_) => None,
    }
}

/// Reads a `i64` field from the front of `s`, with the unread end of `s`.
pub fn read_i64(s: &[u8]) -> (r: Option<(i64, &[u8])>)
    ensures
        match r {
            Some((v, rest)) => rest@.len() < s@.len() && rest@ == s@.skip(s@.len() - rest@.len())
                && postcard_take_i64(s@) == Some((v, (s@.len() - rest@.len()) as nat)),
            None => postcard_take_i64(s@) is None,
        },
        forall|x: i64, tail: Seq<u8>|
            s@ == #[trigger] (postcard_i64_bytes(x) + tail) ==> (r matches Some((v, rest)) && v == x
                && rest@ == tail),
{
    match postcard_read_i64(s) {
        Ok((v, rest)) => Some((v, rest)),
        Err(_) => None,
    }
}

} // verus!
