use vstd::prelude::*;
use crate::error::DemoParserError;

verus! {

/// The little-endian base-128 varint at byte `p` of `bytes`, as read by
/// `read_varint`: at most five bytes are read, the low seven bits of the
/// `i`-th byte are placed at bit `7 * i` (truncated to 32 bits), and reading
/// stops after the first byte whose high bit is clear.  `acc` is the value
/// gathered from the first `i` bytes.  The result is the value and the
/// position just after the last byte read, or `None` when the bytes run out.
pub open spec fn spec_varint_from(bytes: Seq<u8>, p: int, i: nat, acc: u32) -> Option<(u32, int)>
    decreases 5 - i,
{
    if i >= 5 {
        Some((acc, p))
    } else if p < 0 || p >= bytes.len() {
        None
    } else {
        let b = bytes[p] as u32;
        let acc2 = acc | ((b & 127u32) << ((7 * i) as u32));
        if b & 0x80u32 == 0 {
            Some((acc2, p + 1))
        } else {
            spec_varint_from(bytes, p + 1, i + 1, acc2)
        }
    }
}

/// The varint that starts at byte `p`.
pub open spec fn spec_varint(bytes: Seq<u8>, p: int) -> Option<(u32, int)> {
    spec_varint_from(bytes, p, 0, 0)
}


/// The varint encoding of `v`: seven bits per byte, least significant
/// first, with the high bit set on every byte but the last.
pub open spec fn varint_bytes(v: u32) -> Seq<u8>
    decreases v,
{
    if v < 128 {
        seq![v as u8]
    } else {
        proof {
            assert(v >> 7u32 < v) by (bit_vector)
                requires
                    v >= 128u32,
            ;
        }
        seq![((v & 127u32) | 128u32) as u8] + varint_bytes(v >> 7u32)
    }
}

/// Reads a varint of at most five bytes from `bytes` at `*ptr` and moves
/// `*ptr` past it.
pub fn read_varint(bytes: &[u8], ptr: &mut usize) -> (res: Result<u32, DemoParserError>)
    ensures
        match spec_varint(bytes@, *old(ptr) as int) {
            Some((v, end)) => res == Ok::<u32, DemoParserError>(v) && *final(ptr) == end,
            None => res == Err::<u32, DemoParserError>(DemoParserError::OutOfBytesError)
                && *final(ptr) == (if *old(ptr) < bytes@.len() { bytes@.len() as int } else { *old(ptr) as int }),
        },
{
    let mut result: u32 = 0;
    let mut i: u32 = 0;
    while i < 5
        invariant
            0 <= i <= 5,
            *old(ptr) <= *ptr,
            *ptr == *old(ptr) + i,
            i > 0 ==> *ptr <= bytes@.len(),
            spec_varint(bytes@, *old(ptr) as int) == spec_varint_from(bytes@, *ptr as int, i as nat, result),
        decreases 5 - i,
    {
        if *ptr >= bytes.len() {
            return Err(DemoParserError::OutOfBytesError);
        }
        let byte = bytes[*ptr] as u32;
        *ptr += 1;
        result = result | ((byte & 127) << (7 * i));
        if byte & 0x80 == 0 {
            return Ok(result);
        }
        i += 1;
    }
    Ok(result)
}

} // verus!
