//! Byte-level building blocks of the wire format: integers in the machine's
//! native byte order, and UTF-8 text.
use vstd::endian::{endianness, Endian};
use vstd::prelude::*;
use vstd::utf8::{decode_utf8, valid_utf8};

verus! {

/// `le` (least significant byte first) laid out in the byte order of the
/// machine the code runs on.
pub open spec fn native_order(le: Seq<u8>) -> Seq<u8> {
    match endianness() {
        Endian::Little => le,
        Endian::Big => le.reverse(),
    }
}

/// The four bytes of `x`, least significant first.
pub open spec fn le_bytes_u32(x: u32) -> Seq<u8> {
    seq![
        (x & 0xff) as u8,
        ((x >> 8) & 0xff) as u8,
        ((x >> 16) & 0xff) as u8,
        ((x >> 24) & 0xff) as u8,
    ]
}

/// The two bytes of `x`, least significant first.
pub open spec fn le_bytes_u16(x: u16) -> Seq<u8> {
    seq![(x & 0xff) as u8, ((x >> 8) & 0xff) as u8]
}

/// The `u32` whose bytes, least significant first, are `b`.
pub open spec fn u32_from_le(b: Seq<u8>) -> u32 {
    (b[0] as u32) | (b[1] as u32) << 8 | (b[2] as u32) << 16 | (b[3] as u32) << 24
}

/// The `u16` whose bytes, least significant first, are `b`.
pub open spec fn u16_from_le(b: Seq<u8>) -> u16 {
    (b[0] as u16) | (b[1] as u16) << 8
}

/// Reading a `u32` back from its bytes gives it back, and the bytes of any
/// 4-byte sequence are those of the value read from it.
proof fn lemma_le_u32(x: u32, b: Seq<u8>)
    ensures
        le_bytes_u32(x).len() == 4,
        u32_from_le(le_bytes_u32(x)) == x,
        b.len() == 4 ==> le_bytes_u32(u32_from_le(b)) == b,
{
    let s = le_bytes_u32(x);
    assert(x == ((x & 0xff) as u8 as u32) | (((x >> 8) & 0xff) as u8 as u32) << 8 | (((x >> 16)
        & 0xff) as u8 as u32) << 16 | (((x >> 24) & 0xff) as u8 as u32) << 24) by (bit_vector);
    if b.len() == 4 {
        let (b0, b1, b2, b3) = (b[0], b[1], b[2], b[3]);
        let y = u32_from_le(b);
        assert(y == (b0 as u32) | (b1 as u32) << 8 | (b2 as u32) << 16 | (b3 as u32) << 24);
        assert({
            let v = (b0 as u32) | (b1 as u32) << 8 | (b2 as u32) << 16 | (b3 as u32) << 24;
            &&& (v & 0xff) as u8 == b0
            &&& ((v >> 8) & 0xff) as u8 == b1
            &&& ((v >> 16) & 0xff) as u8 == b2
            &&& ((v >> 24) & 0xff) as u8 == b3
        }) by (bit_vector);
        assert(le_bytes_u32(y) =~= b);
    }
}

/// The `u16` counterpart of [`lemma_le_u32`].
proof fn lemma_le_u16(x: u16, b: Seq<u8>)
    ensures
        le_bytes_u16(x).len() == 2,
        u16_from_le(le_bytes_u16(x)) == x,
        b.len() == 2 ==> le_bytes_u16(u16_from_le(b)) == b,
{
    assert(x == ((x & 0xff) as u8 as u16) | (((x >> 8) & 0xff) as u8 as u16) << 8) by (bit_vector);
    if b.len() == 2 {
        let (b0, b1) = (b[0], b[1]);
        let y = u16_from_le(b);
        assert(y == (b0 as u16) | (b1 as u16) << 8);
        assert({
            let v = (b0 as u16) | (b1 as u16) << 8;
            &&& (v & 0xff) as u8 == b0
            &&& ((v >> 8) & 0xff) as u8 == b1
        }) by (bit_vector);
        assert(le_bytes_u16(y) =~= b);
    }
}

/// The four bytes of `x` in native byte order.
pub open spec fn native_u32(x: u32) -> Seq<u8> {
    native_order(le_bytes_u32(x))
}

/// The two bytes of `x` in native byte order.
pub open spec fn native_u16(x: u16) -> Seq<u8> {
    native_order(le_bytes_u16(x))
}

/// The `u32` whose native-order bytes are `b`.
pub open spec fn u32_from_native(b: Seq<u8>) -> u32 {
    u32_from_le(native_order(b))
}

/// The `u16` whose native-order bytes are `b`.
pub open spec fn u16_from_native(b: Seq<u8>) -> u16 {
    u16_from_le(native_order(b))
}

/// Laying bytes out in native order twice gives them back.
pub proof fn lemma_native_order_twice(s: Seq<u8>)
    ensures
        native_order(native_order(s)) == s,
        native_order(s).len() == s.len(),
{
    match endianness() {
        Endian::Little => {},
        Endian::Big => {
            assert(s.reverse().reverse() =~= s);
        },
    }
}

/// Reading a `u32` back from its native-order bytes gives it back, and the
/// bytes of any 4-byte sequence are those of the value read from it.
pub proof fn lemma_native_u32(x: u32, b: Seq<u8>)
    ensures
        native_u32(x).len() == 4,
        u32_from_native(native_u32(x)) == x,
        b.len() == 4 ==> native_u32(u32_from_native(b)) == b,
{
    lemma_le_u32(x, native_order(b));
    lemma_native_order_twice(le_bytes_u32(x));
    lemma_native_order_twice(b);
    lemma_native_order_twice(le_bytes_u32(u32_from_native(b)));
}

/// The `u16` counterpart of [`lemma_native_u32`].
pub proof fn lemma_native_u16(x: u16, b: Seq<u8>)
    ensures
        native_u16(x).len() == 2,
        u16_from_native(native_u16(x)) == x,
        b.len() == 2 ==> native_u16(u16_from_native(b)) == b,
{
    lemma_le_u16(x, native_order(b));
    lemma_native_order_twice(le_bytes_u16(x));
    lemma_native_order_twice(b);
    lemma_native_order_twice(le_bytes_u16(u16_from_native(b)));
}

/// `u32::to_ne_bytes`: the memory representation of `x` in native byte order,
/// as std documents it.
#[verifier::external_body]
pub(crate) fn u32_to_ne_bytes(x: u32) -> (r: [u8; 4])
    ensures
        r@ == native_u32(x),
{
    x.to_ne_bytes()
}

/// `u16::to_ne_bytes`: the memory representation of `x` in native byte order.
#[verifier::external_body]
pub(crate) fn u16_to_ne_bytes(x: u16) -> (r: [u8; 2])
    ensures
        r@ == native_u16(x),
{
    x.to_ne_bytes()
}

/// `u32::from_ne_bytes`: the value whose native-order representation is `b`.
#[verifier::external_body]
pub(crate) fn u32_from_ne_bytes(b: [u8; 4]) -> (r: u32)
    ensures
        r == u32_from_native(b@),
{
    u32::from_ne_bytes(b)
}

/// `u16::from_ne_bytes`: the value whose native-order representation is `b`.
#[verifier::external_body]
pub(crate) fn u16_from_ne_bytes(b: [u8; 2]) -> (r: u16)
    ensures
        r == u16_from_native(b@),
{
    u16::from_ne_bytes(b)
}

/// `String::from_utf8`: succeeds exactly on valid UTF-8 and then holds the
/// decoded characters, as std documents it; the error value is dropped.
#[verifier::external_body]
pub(crate) fn string_from_utf8(bytes: Vec<u8>) -> (r: Option<String>)
    ensures
        r is Some <==> valid_utf8(bytes@),
        r matches Some(s) ==> s@ == decode_utf8(bytes@),
{
    String::from_utf8(bytes).ok()
}

} // verus!
