//! The wire record: one input event per datagram, as two little-endian
//! `u16` fields and one little-endian `i32`, with no header.

use vstd::prelude::*;

verus! {

/// Size in bytes of one encoded event.
pub const EVENT_SIZE: usize = 8;

/// The event type of key transitions.
pub const EV_KEY: u16 = 1;

/// One atomic kernel-level input occurrence.
#[derive(Clone, Copy, Debug, PartialEq, Eq, Structural)]
pub struct InputEvent {
    pub event_type: u16,
    pub code: u16,
    pub value: i32,
}

/// A mouse button of the pointer-capture variant.
#[derive(Clone, Copy, Debug, PartialEq, Eq, Structural)]
pub enum MouseButton {
    Left,
    Right,
    Middle,
    Unknown(u8),
}

/// The two little-endian bytes of `x`.
pub open spec fn le_u16_bytes(x: u16) -> Seq<u8> {
    seq![(x & 0xff) as u8, (x >> 8u16) as u8]
}

/// The four little-endian bytes of `x`.
pub open spec fn le_u32_bytes(x: u32) -> Seq<u8> {
    seq![(x & 0xff) as u8, ((x >> 8u32) & 0xff) as u8, ((x >> 16u32) & 0xff) as u8, (x >> 24u32) as u8]
}

/// The `u16` whose little-endian bytes are `b0`, `b1`.
pub open spec fn u16_from_le(b0: u8, b1: u8) -> u16 {
    ((b0 as u16) | ((b1 as u16) << 8u16)) as u16
}

/// The `u32` whose little-endian bytes are `b0` to `b3`.
pub open spec fn u32_from_le(b0: u8, b1: u8, b2: u8, b3: u8) -> u32 {
    ((b0 as u32) | ((b1 as u32) << 8u32) | ((b2 as u32) << 16u32) | ((b3 as u32) << 24u32)) as u32
}

/// The record of the fields `(t, c, v)`.
pub open spec fn fields_bytes(t: u16, c: u16, v: i32) -> Seq<u8> {
    le_u16_bytes(t) + le_u16_bytes(c) + le_u32_bytes(v as u32)
}

/// The fields read from the first record's worth of `b`, or `None` when `b`
/// is shorter than one record. Bytes past the record are ignored.
pub open spec fn fields_of(b: Seq<u8>) -> Option<(u16, u16, i32)> {
    if b.len() < EVENT_SIZE {
        None
    } else {
        Some((
            u16_from_le(b[0], b[1]),
            u16_from_le(b[2], b[3]),
            u32_from_le(b[4], b[5], b[6], b[7]) as i32,
        ))
    }
}

/// The wire form of `e`.
pub open spec fn wire_bytes(e: InputEvent) -> Seq<u8> {
    fields_bytes(e.event_type, e.code, e.value)
}

/// The event that the datagram `b` carries, if it holds a whole record.
pub open spec fn decoded(b: Seq<u8>) -> Option<InputEvent> {
    match fields_of(b) {
        Some(f) => Some(InputEvent { event_type: f.0, code: f.1, value: f.2 }),
        None => None,
    }
}

/// Relies on `bincode::serialize` (default options: fixed-width integers,
/// little-endian, fields in order, no framing): a tuple of two `u16` and an
/// `i32` becomes their eight little-endian bytes. Writing fixed-size integers
/// into a `Vec` under the default unlimited size bound does not fail.
#[verifier::external_body]
fn bincode_serialize(fields: &(u16, u16, i32)) -> (r: Option<Vec<u8>>)
    ensures
        r is Some,
        r->Some_0@ == fields_bytes(fields.0, fields.1, fields.2),
{
    bincode::serialize(fields).ok()
}

/// Relies on `bincode::deserialize` (default options: fixed-width integers,
/// little-endian, trailing bytes allowed): two `u16` and an `i32` are read
/// from the first eight bytes, and fewer than eight bytes is an error.
#[verifier::external_body]
fn bincode_deserialize(bytes: &[u8]) -> (r: Option<(u16, u16, i32)>)
    ensures
        r == fields_of(bytes@),
{
    bincode::deserialize::<(u16, u16, i32)>(bytes).ok()
}

/// Encodes `e` as one wire record.
pub fn encode(e: &InputEvent) -> (r: Vec<u8>)
    ensures
        r@ == wire_bytes(*e),
        r@.len() == EVENT_SIZE,
{
    let fields = (e.event_type, e.code, e.value);
    bincode_serialize(&fields).unwrap()
}

/// Decodes one datagram; `None` when it is shorter than a record.
pub fn decode(bytes: &[u8]) -> (r: Option<InputEvent>)
    ensures
        r == decoded(bytes@),
        bytes@.len() < EVENT_SIZE <==> r is None,
{
    match bincode_deserialize(bytes) {
        Some(f) => Some(InputEvent { event_type: f.0, code: f.1, value: f.2 }),
        None => None,
    }
}

proof fn lemma_u16_bytes(x: u16)
    ensures
        u16_from_le((x & 0xff) as u8, (x >> 8u16) as u8) == x,
{
    assert(((((x & 0xff) as u8) as u16) | ((((x >> 8u16) as u8) as u16) << 8u16)) == x)
        by (bit_vector);
}

proof fn lemma_u32_bytes(x: u32)
    ensures
        u32_from_le(
            (x & 0xff) as u8,
            ((x >> 8u32) & 0xff) as u8,
            ((x >> 16u32) & 0xff) as u8,
            (x >> 24u32) as u8,
        ) == x,
{
    assert(((((x & 0xff) as u8) as u32) | (((((x >> 8u32) & 0xff) as u8) as u32) << 8u32)
        | (((((x >> 16u32) & 0xff) as u8) as u32) << 16u32) | ((((x >> 24u32) as u8) as u32)
        << 24u32)) == x) by (bit_vector);
}

proof fn lemma_i32_as_u32(v: i32)
    ensures
        (v as u32) as i32 == v,
{
    assert((v as u32) as i32 == v) by (bit_vector);
}

/// Decoding the encoding of any event gives the event back, for every
/// value of each field.
pub proof fn lemma_decode_encode(e: InputEvent)
    ensures
        decoded(wire_bytes(e)) == Some(e),
{
    let b = wire_bytes(e);
    lemma_u16_bytes(e.event_type);
    lemma_u16_bytes(e.code);
    lemma_u32_bytes(e.value as u32);
    lemma_i32_as_u32(e.value);
    assert(b.len() == 8);
    assert(b[0] == (e.event_type & 0xff) as u8);
    assert(b[3] == (e.code >> 8u16) as u8);
    assert(b[4] == ((e.value as u32) & 0xff) as u8);
    assert(b[7] == ((e.value as u32) >> 24u32) as u8);
}

/// A payload shorter than one record decodes to nothing.
pub proof fn lemma_short_payload_rejected(b: Seq<u8>)
    requires
        b.len() < EVENT_SIZE,
    ensures
        decoded(b) is None,
{
}

} // verus!
