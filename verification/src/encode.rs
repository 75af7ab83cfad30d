//! Little-endian encoding of integers onto the end of a byte buffer, done
//! by `byteorder`.

use vstd::prelude::*;
use byteorder::{LittleEndian, WriteBytesExt};

verus! {

/// The two bytes of `n`, low byte first.
pub open spec fn u16_le(n: u16) -> Seq<u8> {
    seq![(n as int % 256) as u8, (n as int / 256) as u8]
}

/// The four bytes of `n`, lowest byte first.
pub open spec fn u32_le(n: u32) -> Seq<u8> {
    seq![
        (n as int % 256) as u8,
        (n as int / 256 % 256) as u8,
        (n as int / 65536 % 256) as u8,
        (n as int / 16777216) as u8,
    ]
}

/// Calls `byteorder::WriteBytesExt::write_u8` on a vector, which writes the
/// one byte with `write_all`; on a vector that appends it and cannot fail.
///
/// Trusted, not proved.
#[verifier::external_body]
pub(crate) fn put_u8(buffer: &mut Vec<u8>, n: u8)
    ensures
        final(buffer)@ == old(buffer)@.push(n),
{
    let _ = buffer.write_u8(n);
}

/// Calls `byteorder::WriteBytesExt::write_u16` with `LittleEndian` on a
/// vector, which writes `n.to_le_bytes()` with `write_all`; on a vector that
/// appends the two bytes, low byte first, and cannot fail.
///
/// Trusted, not proved.
#[verifier::external_body]
pub(crate) fn put_u16(buffer: &mut Vec<u8>, n: u16)
    ensures
        final(buffer)@ == old(buffer)@ + u16_le(n),
{
    let _ = buffer.write_u16::<LittleEndian>(n);
}

/// Calls `byteorder::WriteBytesExt::write_u32` with `LittleEndian` on a
/// vector, which writes `n.to_le_bytes()` with `write_all`; on a vector that
/// appends the four bytes, lowest byte first, and cannot fail.
///
/// Trusted, not proved.
#[verifier::external_body]
pub(crate) fn put_u32(buffer: &mut Vec<u8>, n: u32)
    ensures
        final(buffer)@ == old(buffer)@ + u32_le(n),
{
    let _ = buffer.write_u32::<LittleEndian>(n);
}

} // verus!
