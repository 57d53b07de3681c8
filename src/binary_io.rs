//! Errors of the binary codec and the big-endian integer layout it uses.
use vstd::prelude::*;

verus! {

/// Why a byte sequence could not be decoded.
#[derive(Clone, Copy, Debug, PartialEq, Eq, Structural)]
pub enum DecodeError {
    /// A constant tag byte held another value.
    WrongTag,
    /// The input ended before a fixed-width field was complete.
    Truncated,
}

/// Why a value could not be encoded.
#[derive(Clone, Copy, Debug, PartialEq, Eq, Structural)]
pub enum EncodeError {
    /// The destination has too little room after the write position.
    InsufficientCapacity,
}

/// The two bytes of `x`, most significant first.
pub open spec fn be_u16_bytes(x: u16) -> Seq<u8> {
    seq![(x / 256) as u8, (x % 256) as u8]
}

/// The four bytes of `x`, most significant first.
pub open spec fn be_u32_bytes(x: u32) -> Seq<u8> {
    seq![(x / 0x100_0000) as u8, ((x / 0x1_0000) % 256) as u8, ((x / 256) % 256) as u8, (x % 256) as u8]
}

/// The big-endian 16-bit integer that starts at `i` in `b`.
pub open spec fn be_u16_at(b: Seq<u8>, i: int) -> u16 {
    (b[i] * 256 + b[i + 1]) as u16
}

/// The big-endian 32-bit integer that starts at `i` in `b`.
pub open spec fn be_u32_at(b: Seq<u8>, i: int) -> u32 {
    (((b[i] * 256 + b[i + 1]) * 256 + b[i + 2]) * 256 + b[i + 3]) as u32
}

/// Reading back the two bytes of `x` gives `x`.
pub proof fn lemma_be_u16_round_trip(x: u16)
    ensures
        be_u16_at(be_u16_bytes(x), 0) == x,
{
}

/// Reading back the four bytes of `x` gives `x`.
pub proof fn lemma_be_u32_round_trip(x: u32)
    ensures
        be_u32_at(be_u32_bytes(x), 0) == x,
{
}

/// Reads the big-endian 16-bit integer at `i`.
pub fn read_be_u16(b: &[u8], i: usize) -> (r: u16)
    requires
        i + 2 <= b@.len(),
    ensures
        r == be_u16_at(b@, i as int),
{
    (b[i] as u16) * 256 + (b[i + 1] as u16)
}

/// Reads the big-endian 32-bit integer at `i`.
pub fn read_be_u32(b: &[u8], i: usize) -> (r: u32)
    requires
        i + 4 <= b@.len(),
    ensures
        r == be_u32_at(b@, i as int),
{
    (((b[i] as u32) * 256 + (b[i + 1] as u32)) * 256 + (b[i + 2] as u32)) * 256 + (b[i + 3] as u32)
}

/// Writes `x` big-endian at `i`; the other bytes stay.
pub fn write_be_u16(buf: &mut [u8], i: usize, x: u16)
    requires
        i + 2 <= old(buf)@.len(),
    ensures
        final(buf)@.len() == old(buf)@.len(),
        final(buf)@.subrange(i as int, i + 2) == be_u16_bytes(x),
        forall|j: int|
            0 <= j < old(buf)@.len() && !(i <= j < i + 2) ==> #[trigger] final(buf)@[j]
                == old(buf)@[j],
{
    buf[i] = (x / 256) as u8;
    buf[i + 1] = (x % 256) as u8;
    assert(buf@.subrange(i as int, i + 2) =~= be_u16_bytes(x));
}

/// Writes `x` big-endian at `i`; the other bytes stay.
pub fn write_be_u32(buf: &mut [u8], i: usize, x: u32)
    requires
        i + 4 <= old(buf)@.len(),
    ensures
        final(buf)@.len() == old(buf)@.len(),
        final(buf)@.subrange(i as int, i + 4) == be_u32_bytes(x),
        forall|j: int|
            0 <= j < old(buf)@.len() && !(i <= j < i + 4) ==> #[trigger] final(buf)@[j]
                == old(buf)@[j],
{
    buf[i] = (x / 0x100_0000) as u8;
    buf[i + 1] = ((x / 0x1_0000) % 256) as u8;
    buf[i + 2] = ((x / 256) % 256) as u8;
    buf[i + 3] = (x % 256) as u8;
    assert(buf@.subrange(i as int, i + 4) =~= be_u32_bytes(x));
}

} // verus!
