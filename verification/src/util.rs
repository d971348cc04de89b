//! Big-endian placement of numbers in a byte buffer.

use crate::data::overwrite;
use vstd::prelude::*;

verus! {

/// The four bytes of `value`, most significant first.
pub open spec fn u32_be_bytes(value: u32) -> Seq<u8> {
    seq![
        (value / 16777216) as u8,
        (value / 65536 % 256) as u8,
        (value / 256 % 256) as u8,
        (value % 256) as u8,
    ]
}

/// Writes `value` over the four bytes at `at`, most significant first.
pub(crate) fn put_u32_be(buf: &mut [u8], at: usize, value: u32)
    requires
        at + 4 <= old(buf)@.len(),
    ensures
        final(buf)@ == overwrite(old(buf)@, at as int, u32_be_bytes(value)),
{
    assert(value >> 24 == value / 16777216 && value >> 24 < 256) by (bit_vector);
    assert((value >> 16) & 0xff == value / 65536 % 256) by (bit_vector);
    assert((value >> 8) & 0xff == value / 256 % 256) by (bit_vector);
    assert(value & 0xff == value % 256) by (bit_vector);
    buf[at] = (value >> 24) as u8;
    buf[at + 1] = ((value >> 16) & 0xff) as u8;
    buf[at + 2] = ((value >> 8) & 0xff) as u8;
    buf[at + 3] = (value & 0xff) as u8;
}

/// Writes `val` over the first four bytes of `buf`, most significant
/// first. The bytes behind them are left alone.
pub fn encode_u32(val: u32, buf: &mut [u8])
    requires
        old(buf)@.len() >= 4,
    ensures
        final(buf)@ == u32_be_bytes(val) + old(buf)@.skip(4),
{
    put_u32_be(buf, 0, val);
}

} // verus!
