//! Byte-level encodings of integers as the kernel datapath sees them.
//!
//! Fields of the shared records are stored in host byte order, except for
//! IPv4 addresses and masks, which are kept in network (big-endian) order.
//! Which order the host uses is abstracted by `vstd::endian::endianness()`.
use vstd::prelude::*;
use vstd::endian::{endianness, Endian};

verus! {

/// Little-endian bytes of a `u16`.
pub open spec fn le_bytes_u16(x: u16) -> Seq<u8> {
    seq![(x & 0xff) as u8, (x >> 8u16) as u8]
}

/// Big-endian bytes of a `u16`.
pub open spec fn be_bytes_u16(x: u16) -> Seq<u8> {
    seq![(x >> 8u16) as u8, (x & 0xff) as u8]
}

/// Little-endian bytes of a `u32`.
pub open spec fn le_bytes_u32(x: u32) -> Seq<u8> {
    seq![
        (x & 0xff) as u8,
        ((x >> 8u32) & 0xff) as u8,
        ((x >> 16u32) & 0xff) as u8,
        (x >> 24u32) as u8,
    ]
}

/// Big-endian bytes of a `u32`.
pub open spec fn be_bytes_u32(x: u32) -> Seq<u8> {
    seq![
        (x >> 24u32) as u8,
        ((x >> 16u32) & 0xff) as u8,
        ((x >> 8u32) & 0xff) as u8,
        (x & 0xff) as u8,
    ]
}

/// Little-endian bytes of a `u64`.
pub open spec fn le_bytes_u64(x: u64) -> Seq<u8> {
    seq![
        (x & 0xff) as u8,
        ((x >> 8u64) & 0xff) as u8,
        ((x >> 16u64) & 0xff) as u8,
        ((x >> 24u64) & 0xff) as u8,
        ((x >> 32u64) & 0xff) as u8,
        ((x >> 40u64) & 0xff) as u8,
        ((x >> 48u64) & 0xff) as u8,
        (x >> 56u64) as u8,
    ]
}

/// Big-endian bytes of a `u64`.
pub open spec fn be_bytes_u64(x: u64) -> Seq<u8> {
    seq![
        (x >> 56u64) as u8,
        ((x >> 48u64) & 0xff) as u8,
        ((x >> 40u64) & 0xff) as u8,
        ((x >> 32u64) & 0xff) as u8,
        ((x >> 24u64) & 0xff) as u8,
        ((x >> 16u64) & 0xff) as u8,
        ((x >> 8u64) & 0xff) as u8,
        (x & 0xff) as u8,
    ]
}

/// Bytes of a `u16` in host order.
pub open spec fn ne_bytes_u16(x: u16) -> Seq<u8> {
    match endianness() {
        Endian::Little => le_bytes_u16(x),
        Endian::Big => be_bytes_u16(x),
    }
}

/// Bytes of a `u32` in host order.
pub open spec fn ne_bytes_u32(x: u32) -> Seq<u8> {
    match endianness() {
        Endian::Little => le_bytes_u32(x),
        Endian::Big => be_bytes_u32(x),
    }
}

/// Bytes of a `u64` in host order.
pub open spec fn ne_bytes_u64(x: u64) -> Seq<u8> {
    match endianness() {
        Endian::Little => le_bytes_u64(x),
        Endian::Big => be_bytes_u64(x),
    }
}

/// The `u64` whose little-endian bytes are `b[0..8]`.
pub open spec fn le_value_u64(b: Seq<u8>) -> u64 {
    (b[0] as u64) | ((b[1] as u64) << 8u64) | ((b[2] as u64) << 16u64) | ((b[3] as u64)
        << 24u64) | ((b[4] as u64) << 32u64) | ((b[5] as u64) << 40u64) | ((b[6] as u64)
        << 48u64) | ((b[7] as u64) << 56u64)
}

/// The `u64` whose big-endian bytes are `b[0..8]`.
pub open spec fn be_value_u64(b: Seq<u8>) -> u64 {
    (b[7] as u64) | ((b[6] as u64) << 8u64) | ((b[5] as u64) << 16u64) | ((b[4] as u64)
        << 24u64) | ((b[3] as u64) << 32u64) | ((b[2] as u64) << 40u64) | ((b[1] as u64)
        << 48u64) | ((b[0] as u64) << 56u64)
}

/// The `u64` whose host-order bytes are `b[0..8]`.
pub open spec fn ne_value_u64(b: Seq<u8>) -> u64 {
    match endianness() {
        Endian::Little => le_value_u64(b),
        Endian::Big => be_value_u64(b),
    }
}

/// `x` with its four bytes in reverse order.
pub open spec fn swap_bytes_u32(x: u32) -> u32 {
    ((x & 0xff) << 24u32) | (((x >> 8u32) & 0xff) << 16u32) | (((x >> 16u32) & 0xff) << 8u32) | (x
        >> 24u32)
}

/// The value whose host-order representation is the network-order (big-endian)
/// representation of `x`.
pub open spec fn host_to_be_u32(x: u32) -> u32 {
    match endianness() {
        Endian::Big => x,
        Endian::Little => swap_bytes_u32(x),
    }
}

/// `u32::to_be`: the documentation says it is the identity on big-endian
/// targets and swaps the bytes on little-endian ones.
#[verifier::external_body]
pub(crate) fn u32_to_be(x: u32) -> (r: u32)
    ensures
        r == host_to_be_u32(x),
{
    x.to_be()
}

/// `u16::to_ne_bytes`: the memory representation of `x` in host byte order.
#[verifier::external_body]
pub(crate) fn u16_to_ne_bytes(x: u16) -> (r: [u8; 2])
    ensures
        r@ == ne_bytes_u16(x),
{
    x.to_ne_bytes()
}

/// `u32::to_ne_bytes`: the memory representation of `x` in host byte order.
#[verifier::external_body]
pub(crate) fn u32_to_ne_bytes(x: u32) -> (r: [u8; 4])
    ensures
        r@ == ne_bytes_u32(x),
{
    x.to_ne_bytes()
}

/// `u64::to_ne_bytes`: the memory representation of `x` in host byte order.
#[verifier::external_body]
pub(crate) fn u64_to_ne_bytes(x: u64) -> (r: [u8; 8])
    ensures
        r@ == ne_bytes_u64(x),
{
    x.to_ne_bytes()
}

/// `u64::from_ne_bytes`: the value whose host-order memory representation is `b`.
#[verifier::external_body]
pub(crate) fn u64_from_ne_bytes(b: [u8; 8]) -> (r: u64)
    ensures
        r == ne_value_u64(b@),
{
    u64::from_ne_bytes(b)
}

/// Appends `b` to `out`.
pub fn push_bytes(out: &mut Vec<u8>, b: &[u8])
    ensures
        final(out)@ == old(out)@ + b@,
{
    let mut i: usize = 0;
    while i < b.len()
        invariant
            i <= b@.len(),
            out@ == old(out)@ + b@.subrange(0, i as int),
        decreases b@.len() - i,
    {
        out.push(b[i]);
        i = i + 1;
        assert(b@.subrange(0, i as int) =~= b@.subrange(0, i - 1).push(b@[i - 1]));
    }
    assert(b@.subrange(0, i as int) =~= b@);
}

/// A value converted to network order and then stored in host order occupies
/// the big-endian bytes of the original value, whatever the host's byte order.
pub proof fn lemma_network_order_bytes(x: u32)
    ensures
        ne_bytes_u32(host_to_be_u32(x)) == be_bytes_u32(x),
{
    match endianness() {
        Endian::Big => {},
        Endian::Little => {
            let y = swap_bytes_u32(x);
            assert((y & 0xff) as u8 == (x >> 24u32) as u8 && ((y >> 8u32) & 0xff) as u8 == ((x
                >> 16u32) & 0xff) as u8 && ((y >> 16u32) & 0xff) as u8 == ((x >> 8u32) & 0xff) as u8
                && (y >> 24u32) as u8 == (x & 0xff) as u8) by (bit_vector)
                requires
                    y == ((x & 0xff) << 24u32) | (((x >> 8u32) & 0xff) << 16u32) | (((x >> 16u32)
                        & 0xff) << 8u32) | (x >> 24u32),
            ;
            assert(le_bytes_u32(y) =~= be_bytes_u32(x));
        },
    }
}

/// Reading back the host-order bytes of a `u64` gives the value.
pub proof fn lemma_ne_bytes_u64_roundtrip(x: u64)
    ensures
        ne_bytes_u64(x).len() == 8,
        ne_value_u64(ne_bytes_u64(x)) == x,
{
    let b0 = (x & 0xff) as u8;
    let b1 = ((x >> 8u64) & 0xff) as u8;
    let b2 = ((x >> 16u64) & 0xff) as u8;
    let b3 = ((x >> 24u64) & 0xff) as u8;
    let b4 = ((x >> 32u64) & 0xff) as u8;
    let b5 = ((x >> 40u64) & 0xff) as u8;
    let b6 = ((x >> 48u64) & 0xff) as u8;
    let b7 = (x >> 56u64) as u8;
    assert((b0 as u64) | ((b1 as u64) << 8u64) | ((b2 as u64) << 16u64) | ((b3 as u64) << 24u64)
        | ((b4 as u64) << 32u64) | ((b5 as u64) << 40u64) | ((b6 as u64) << 48u64) | ((b7 as u64)
        << 56u64) == x) by (bit_vector)
        requires
            b0 == (x & 0xff) as u8,
            b1 == ((x >> 8u64) & 0xff) as u8,
            b2 == ((x >> 16u64) & 0xff) as u8,
            b3 == ((x >> 24u64) & 0xff) as u8,
            b4 == ((x >> 32u64) & 0xff) as u8,
            b5 == ((x >> 40u64) & 0xff) as u8,
            b6 == ((x >> 48u64) & 0xff) as u8,
            b7 == (x >> 56u64) as u8,
    ;
    match endianness() {
        Endian::Little => {
            let s = le_bytes_u64(x);
            assert(s[0] == b0 && s[1] == b1 && s[2] == b2 && s[3] == b3);
            assert(s[4] == b4 && s[5] == b5 && s[6] == b6 && s[7] == b7);
        },
        Endian::Big => {
            let s = be_bytes_u64(x);
            assert(s[7] == b0 && s[6] == b1 && s[5] == b2 && s[4] == b3);
            assert(s[3] == b4 && s[2] == b5 && s[1] == b6 && s[0] == b7);
        },
    }
}

} // verus!
