use vstd::prelude::*;
use vstd::arithmetic::power2::*;
use vstd::utf8::{valid_utf8, decode_utf8};
use bitter::BitReader;
use bitter::LittleEndianReader;
use crate::error::DemoParserError;
use crate::strings::{decimal, write_decimal};

verus! {


/// Bit `i` of the stream `d`, bits numbered from the least significant bit of
/// the first byte.
pub open spec fn bit_at(d: Seq<u8>, i: int) -> nat {
    ((d[i / 8] as nat) / pow2((i % 8) as nat)) % 2
}

/// The `n` bits of `d` starting at bit `p`, read as a little-endian number.
pub open spec fn bits_value(d: Seq<u8>, p: int, n: nat) -> nat
    decreases n,
{
    if n == 0 {
        0
    } else {
        bit_at(d, p) + 2 * bits_value(d, p + 1, (n - 1) as nat)
    }
}

/// Reading `n` bits at `p`: the value and the position after it, or `None`
/// when fewer than `n` bits are left.
pub open spec fn take_bits(d: Seq<u8>, p: int, n: nat) -> Option<(nat, int)> {
    if 0 <= p && p + n <= 8 * d.len() {
        Some((bits_value(d, p, n), p + n))
    } else {
        None
    }
}

/// An `n`-bit value is below `2^n`.
pub proof fn lemma_bits_value_bound(d: Seq<u8>, p: int, n: nat)
    ensures
        bits_value(d, p, n) < pow2(n),
    decreases n,
{
    lemma2_to64();
    if n > 0 {
        lemma_bits_value_bound(d, p + 1, (n - 1) as nat);
        lemma_pow2_unfold(n);
    }
}

/// Reading `a` bits and then `b` bits gives the low and high parts of the
/// `a + b` bits that start at the same place.
pub proof fn lemma_bits_value_split(d: Seq<u8>, p: int, a: nat, b: nat)
    ensures
        bits_value(d, p, a + b) == bits_value(d, p, a) + pow2(a) * bits_value(d, p + a, b),
    decreases a,
{
    lemma2_to64();
    if a == 0 {
        assert(a + b == b);
        assert(p + a == p);
    } else {
        lemma_bits_value_split(d, p + 1, (a - 1) as nat, b);
        lemma_pow2_unfold(a);
        assert((a + b - 1) as nat == (a - 1) as nat + b);
        assert(p + 1 + (a - 1) == p + a);
        let x = bits_value(d, p + 1, (a - 1) as nat) as int;
        let y = pow2((a - 1) as nat) as int;
        let z = bits_value(d, p + a, b) as int;
        assert(2 * (x + y * z) == 2 * x + (2 * y) * z) by (nonlinear_arith);
        assert(bits_value(d, p, a + b) == bit_at(d, p) + 2 * bits_value(d, p + 1, (a - 1) as nat + b));
    }
}

/// Peeks at `n` bits of `data`, starting `skip` bits into byte `byte_start`,
/// through `bitter::LittleEndianReader` (`new`, `refill_lookahead`, `consume`,
/// `peek`). The contract claims what bitter documents for a little-endian
/// reader: the bits come least significant first, so the result is the
/// little-endian value of those `n` bits.
#[verifier::external_body]
fn bitter_peek(data: &[u8], byte_start: usize, skip: u32, n: u32) -> (r: u64)
    requires
        byte_start <= data@.len(),
        skip < 8,
        n <= 32,
        8 * byte_start + skip + n <= 8 * data@.len(),
    ensures
        r == bits_value(data@, 8 * byte_start + skip, n as nat),
{
    let mut reader = LittleEndianReader::new(&data[byte_start..]);
    reader.refill_lookahead();
    reader.consume(skip);
    reader.refill_lookahead();
    reader.peek(n)
}

/// Reads `n` whole bytes of `data`, starting `skip` bits into byte
/// `byte_start`, through `bitter::LittleEndianReader::read_bytes`. The
/// contract claims what bitter documents: with enough bits left the buffer is
/// filled, byte `i` being the eight bits that start `8 * i` bits further on.
#[verifier::external_body]
fn bitter_read_bytes(data: &[u8], byte_start: usize, skip: u32, n: usize) -> (r: Vec<u8>)
    requires
        byte_start <= data@.len(),
        skip < 8,
        8 * byte_start + skip + 8 * n <= 8 * data@.len(),
    ensures
        r@.len() == n,
        forall|i: int| 0 <= i < n ==> #[trigger] r@[i] == bits_value(data@, 8 * byte_start + skip + 8 * i, 8),
{
    let mut reader = LittleEndianReader::new(&data[byte_start..]);
    reader.refill_lookahead();
    reader.consume(skip);
    let mut buf = vec![0u8; n];
    reader.read_bytes(&mut buf);
    buf
}

/// The text of the error given when a read of `requested` bytes finds only
/// `left` whole bytes in the stream.
pub open spec fn failed_read_text(left: usize, requested: usize) -> Seq<char> {
    "Failed to read message/command. bytes left in stream: "@ + decimal(left as nat)
        + ", requested bytes: "@ + decimal(requested as nat)
}

/// The message of a failed byte read.
fn failed_read_message(left: usize, requested: usize) -> (s: String)
    ensures
        s@ == failed_read_text(left, requested),
{
    let mut s = String::from_str("Failed to read message/command. bytes left in stream: ");
    write_decimal(left as u64, &mut s);
    s.append(", requested bytes: ");
    write_decimal(requested as u64, &mut s);
    s
}

/// Reading `n <= 32` bits at `p` as a `u32`, or running out of bits.
pub open spec fn spec_nbits(d: Seq<u8>, p: int, n: nat) -> Result<(u32, int), DemoParserError> {
    match take_bits(d, p, n) {
        Some((v, end)) => Ok((v as u32, end)),
        None => Err(DemoParserError::OutOfBitsError),
    }
}

/// The variable-length unsigned number used for message types and entity
/// indices: six bits, whose top two select how many more bits (none, 4, 8
/// or 28) extend the low four.
pub open spec fn spec_u_bit_var(d: Seq<u8>, p: int) -> Result<(u32, int), DemoParserError> {
    match spec_nbits(d, p, 6) {
        Err(e) => Err(e),
        Ok((bits, p1)) => {
            let extra: nat = if bits & 0b110000u32 == 0b10000u32 {
                4
            } else if bits & 0b110000u32 == 0b100000u32 {
                8
            } else if bits & 0b110000u32 == 0b110000u32 {
                28
            } else {
                0
            };
            if extra == 0 {
                Ok((bits, p1))
            } else {
                match spec_nbits(d, p1, extra) {
                    Err(e) => Err(e),
                    Ok((x, p2)) => Ok(((bits & 0b1111u32) | (x << 4u32), p2)),
                }
            }
        },
    }
}

/// A varint of at most five 8-bit groups read from the bit stream, in the
/// manner of `spec_varint_from`.
pub open spec fn spec_bit_varint_from(d: Seq<u8>, p: int, count: nat, acc: u32) -> Result<(u32, int), DemoParserError>
    decreases 5 - count,
{
    if count >= 5 {
        Ok((acc, p))
    } else {
        match spec_nbits(d, p, 8) {
            Err(e) => Err(e),
            Ok((b, p1)) => {
                let acc2 = acc | ((b & 127u32) << ((7 * count) as u32));
                if b & 0x80u32 == 0 {
                    Ok((acc2, p1))
                } else {
                    spec_bit_varint_from(d, p1, count + 1, acc2)
                }
            },
        }
    }
}

/// The 32-bit varint at bit `p`.
pub open spec fn spec_bit_varint(d: Seq<u8>, p: int) -> Result<(u32, int), DemoParserError> {
    spec_bit_varint_from(d, p, 0, 0)
}

/// The zig-zag decoding of a varint: `x >> 1`, its bits inverted when `x` is odd.
pub open spec fn zigzag(x: i32) -> i32 {
    if x & 1i32 != 0 {
        !(x >> 1i32)
    } else {
        x >> 1i32
    }
}

/// The signed 32-bit varint at bit `p`.
pub open spec fn spec_varint32(d: Seq<u8>, p: int) -> Result<(i32, int), DemoParserError> {
    match spec_bit_varint(d, p) {
        Err(e) => Err(e),
        Ok((x, end)) => Ok((zigzag(x as i32), end)),
    }
}

/// A 64-bit varint read from bit `p`, `count` groups having been read so far
/// with `shift == 7 * count` and value `acc`. A last group found after more
/// than nine groups, or a tenth group above one, makes the message malformed.
pub open spec fn spec_varint64_from(d: Seq<u8>, p: int, count: nat, acc: u64) -> Result<(u64, int), DemoParserError>
    decreases 8 * d.len() - p,
{
    match spec_nbits(d, p, 8) {
        Err(e) => Err(e),
        Ok((b, p1)) => {
            if b < 0x80 {
                if count > 9 || (count == 9 && b > 1) {
                    Err(DemoParserError::MalformedMessage)
                } else {
                    Ok((acc | ((b as u64) << ((7 * count) as u64)), p1))
                }
            } else {
                let acc2 = if count <= 9 {
                    acc | (((b as u64) & 127u64) << ((7 * count) as u64))
                } else {
                    acc
                };
                if p1 > p && p1 <= 8 * d.len() {
                    spec_varint64_from(d, p1, count + 1, acc2)
                } else {
                    Err(DemoParserError::OutOfBitsError)
                }
            }
        },
    }
}

/// The 64-bit varint at bit `p`.
pub open spec fn spec_varint64(d: Seq<u8>, p: int) -> Result<(u64, int), DemoParserError> {
    spec_varint64_from(d, p, 0, 0)
}

/// The number used in field paths: a flag bit chooses 2 bits, else a second
/// flag chooses 4, a third 10, a fourth 17, and otherwise 31 bits follow.
pub open spec fn spec_ubit_var_fp(d: Seq<u8>, p: int) -> Result<(u32, int), DemoParserError> {
    match spec_nbits(d, p, 1) {
        Err(e) => Err(e),
        Ok((f1, p1)) => if f1 != 0 {
            spec_nbits(d, p1, 2)
        } else {
            match spec_nbits(d, p1, 1) {
                Err(e) => Err(e),
                Ok((f2, p2)) => if f2 != 0 {
                    spec_nbits(d, p2, 4)
                } else {
                    match spec_nbits(d, p2, 1) {
                        Err(e) => Err(e),
                        Ok((f3, p3)) => if f3 != 0 {
                            spec_nbits(d, p3, 10)
                        } else {
                            match spec_nbits(d, p3, 1) {
                                Err(e) => Err(e),
                                Ok((f4, p4)) => if f4 != 0 {
                                    spec_nbits(d, p4, 17)
                                } else {
                                    spec_nbits(d, p4, 31)
                                },
                            }
                        },
                    }
                },
            }
        },
    }
}

/// The `n` whole bytes that start at bit `p`.
pub open spec fn bytes_at(d: Seq<u8>, p: int, n: nat) -> Seq<u8> {
    Seq::new(n, |i: int| bits_value(d, p + 8 * i, 8) as u8)
}

/// The bytes of a zero-terminated string at bit `p` (without the zero) and
/// the position after the zero.
pub open spec fn spec_cstring(d: Seq<u8>, p: int) -> Result<(Seq<u8>, int), DemoParserError>
    decreases 8 * d.len() - p,
{
    match spec_nbits(d, p, 8) {
        Err(e) => Err(e),
        Ok((c, p1)) => if c == 0 {
            Ok((Seq::empty(), p1))
        } else if p1 > p && p1 <= 8 * d.len() {
            match spec_cstring(d, p1) {
                Err(e) => Err(e),
                Ok((rest, end)) => Ok((seq![c as u8].add(rest), end)),
            }
        } else {
            Err(DemoParserError::OutOfBitsError)
        },
    }
}

/// Reading a flag bit.
pub open spec fn spec_flag(d: Seq<u8>, p: int) -> Result<(bool, int), DemoParserError> {
    match spec_nbits(d, p, 1) {
        Ok((v, end)) => Ok((v != 0, end)),
        Err(e) => Err(e),
    }
}

/// A bit-packed coordinate: a flag for a whole part, a flag for a fraction,
/// then (unless both are clear) a sign bit, 14 bits of the whole part less
/// one, and 5 bits of the fraction, each part present only if flagged.
pub open spec fn spec_bit_coord(d: Seq<u8>, p: int) -> Result<((bool, u32, u32), int), DemoParserError> {
    match spec_flag(d, p) {
        Err(e) => Err(e),
        Ok((i2, p1)) => match spec_flag(d, p1) {
            Err(e) => Err(e),
            Ok((f2, p2)) => if !i2 && !f2 {
                Ok(((false, 0u32, 0u32), p2))
            } else {
                match spec_flag(d, p2) {
                    Err(e) => Err(e),
                    Ok((neg, p3)) => {
                        let int_part: Result<(u32, int), DemoParserError> = if i2 {
                            match spec_nbits(d, p3, 14) {
                                Ok((v, e)) => Ok(((v + 1) as u32, e)),
                                Err(e) => Err(e),
                            }
                        } else {
                            Ok((0u32, p3))
                        };
                        match int_part {
                            Err(e) => Err(e),
                            Ok((iv, p4)) => if f2 {
                                match spec_nbits(d, p4, 5) {
                                    Ok((fv, p5)) => Ok(((neg, iv, fv), p5)),
                                    Err(e) => Err(e),
                                }
                            } else {
                                Ok(((neg, iv, 0u32), p4))
                            },
                        }
                    },
                }
            },
        },
    }
}

/// The text that `String::from_utf8_lossy` makes of `bytes`.
pub uninterp spec fn utf8_lossy(bytes: Seq<u8>) -> Seq<char>;

/// Decodes `bytes` with `String::from_utf8_lossy`. The contract claims what
/// std documents: the result is named `utf8_lossy(bytes)`; valid UTF-8
/// comes out as the characters it encodes (vstd's `decode_utf8`), so ASCII
/// bytes come out as the same characters. How invalid sequences are
/// replaced is left unsaid.
#[verifier::external_body]
pub(crate) fn lossy_string(bytes: &[u8]) -> (s: String)
    ensures
        s@ == utf8_lossy(bytes@),
        valid_utf8(bytes@) ==> s@ == decode_utf8(bytes@),
        (forall|i: int| 0 <= i < bytes@.len() ==> #[trigger] bytes@[i] < 128) ==> s@ == bytes@.map_values(|b: u8| b as char),
{
    String::from_utf8_lossy(bytes).into_owned()
}

/// What a read did: the stream is unchanged and well formed; on success the
/// value is the one `s` gives and the position moved to where `s` says; on
/// failure the error is the one `s` gives.
pub open spec fn read_outcome<'a, T>(before: Bitreader<'a>, after: Bitreader<'a>, res: Result<T, DemoParserError>, s: Result<(T, int), DemoParserError>) -> bool {
    &&& after.wf()
    &&& after.data() == before.data()
    &&& match s {
        Ok((v, end)) => res == Ok::<T, DemoParserError>(v) && after.pos() == end,
        Err(e) => res == Err::<T, DemoParserError>(e),
    }
}

/// A reader of single bits and bit-packed numbers over a byte slice.
pub struct Bitreader<'a> {
    bytes: &'a [u8],
    byte_pos: usize,
    bit_pos: u32,
}

impl<'a> Bitreader<'a> {
    /// The bytes being read.
    pub closed spec fn data(&self) -> Seq<u8> {
        self.bytes@
    }

    /// The number of bits already read.
    pub closed spec fn pos(&self) -> int {
        8 * self.byte_pos + self.bit_pos
    }

    /// The position lies within the stream.
    pub closed spec fn wf(&self) -> bool {
        &&& self.bit_pos < 8
        &&& self.byte_pos <= self.bytes@.len()
        &&& self.byte_pos == self.bytes@.len() ==> self.bit_pos == 0
    }

    /// A well-formed reader's position lies within the stream.
    pub proof fn lemma_pos_within(&self)
        requires
            self.wf(),
        ensures
            0 <= self.pos() <= 8 * self.data().len(),
    {
    }

    /// The number of bits not read yet.
    pub open spec fn remaining(&self) -> int {
        8 * self.data().len() - self.pos()
    }

    /// A reader at the start of `bytes`.
    pub fn new(bytes: &'a [u8]) -> (r: Bitreader<'a>)
        ensures
            r.wf(),
            r.data() == bytes@,
            r.pos() == 0,
    {
        Bitreader { bytes, byte_pos: 0, bit_pos: 0 }
    }

    /// Whether at least `n` bits are left.
    fn has_bits(&self, n: u32) -> (b: bool)
        requires
            self.wf(),
        ensures
            b == (self.pos() + n <= 8 * self.data().len()),
    {
        let bytes_left = self.bytes.len() - self.byte_pos;
        assert(8 * self.data().len() - self.pos() == 8 * bytes_left - self.bit_pos);
        if bytes_left > 0x4000_0000 {
            true
        } else {
            (bytes_left as u64) * 8 >= (self.bit_pos as u64) + (n as u64)
        }
    }

    /// Whether at least `n` whole bytes are left.
    fn has_bytes(&self, n: usize) -> (b: bool)
        requires
            self.wf(),
        ensures
            b == (self.pos() + 8 * n <= 8 * self.data().len()),
    {
        let bytes_left = self.bytes.len() - self.byte_pos;
        if self.bit_pos == 0 {
            bytes_left >= n
        } else {
            bytes_left > n
        }
    }

    /// Moves `n` bits on; the bits must be there.
    fn advance(&mut self, n: u32)
        requires
            old(self).wf(),
            old(self).pos() + n <= 8 * old(self).data().len(),
        ensures
            final(self).wf(),
            final(self).data() == old(self).data(),
            final(self).pos() == old(self).pos() + n,
    {
        let total = self.bit_pos as u64 + n as u64;
        let len = self.bytes.len();
        assert(total <= 8 * (len - self.byte_pos));
        assert(total / 8 <= self.bytes@.len() - self.byte_pos);
        self.byte_pos = self.byte_pos + (total / 8) as usize;
        self.bit_pos = (total % 8) as u32;
    }

    /// Moves `n` whole bytes on; they must be there.
    fn advance_bytes(&mut self, n: usize)
        requires
            old(self).wf(),
            old(self).pos() + 8 * n <= 8 * old(self).data().len(),
        ensures
            final(self).wf(),
            final(self).data() == old(self).data(),
            final(self).pos() == old(self).pos() + 8 * n,
    {
        let len = self.bytes.len();
        assert(n <= len - self.byte_pos);
        self.byte_pos = self.byte_pos + n;
    }

    /// The number of bits left, where it fits in a `usize`.
    pub fn bits_remaining(&self) -> (r: Option<usize>)
        requires
            self.wf(),
        ensures
            match r {
                Some(n) => n == self.remaining(),
                None => self.remaining() > usize::MAX - 8,
            },
    {
        let bytes_left = self.bytes.len() - self.byte_pos;
        match bytes_left.checked_mul(8) {
            Some(bits) => Some(bits - self.bit_pos as usize),
            None => None,
        }
    }

    /// Reads `n` bits as a little-endian number.
    pub fn read_nbits(&mut self, n: u32) -> (res: Result<u32, DemoParserError>)
        requires
            old(self).wf(),
            n <= 32,
        ensures
            final(self).wf(),
            final(self).data() == old(self).data(),
            match take_bits(old(self).data(), old(self).pos(), n as nat) {
                Some((v, end)) => res == Ok::<u32, DemoParserError>(v as u32) && v < pow2(n as nat)
                    && final(self).pos() == end,
                None => res == Err::<u32, DemoParserError>(DemoParserError::OutOfBitsError)
                    && final(self).pos() == old(self).pos(),
            },
    {
        if !self.has_bits(n) {
            return Err(DemoParserError::OutOfBitsError);
        }
        let v = bitter_peek(self.bytes, self.byte_pos, self.bit_pos, n);
        proof {
            lemma_bits_value_bound(self.bytes@, self.pos(), n as nat);
            if n < 32 {
                lemma_pow2_strictly_increases(n as nat, 32);
            }
            lemma2_to64();
        }
        self.advance(n);
        Ok(v as u32)
    }

}


/// The next `n` bits at `p` as a little-endian number, the bits past the
/// end of the stream read as zeros.
pub open spec fn peek_padded(d: Seq<u8>, p: int, n: nat) -> nat {
    if p + n <= 8 * d.len() {
        bits_value(d, p, n)
    } else {
        bits_value(d, p, (8 * d.len() - p) as nat)
    }
}

impl<'a> Bitreader<'a> {
    /// Looks at the next `n` bits without moving on; bits past the end of
    /// the stream read as zeros.
    pub fn peek_bits(&self, n: u32) -> (r: u32)
        requires
            self.wf(),
            n <= 32,
        ensures
            r == peek_padded(self.data(), self.pos(), n as nat),
    {
        let m: u32 = if self.has_bits(n) {
            n
        } else {
            let bytes_left = self.bytes.len() - self.byte_pos;
            assert(8 * bytes_left - self.bit_pos < n);
            (bytes_left as u32) * 8 - self.bit_pos
        };
        assert(m == (if self.pos() + n <= 8 * self.data().len() { n as int } else { 8 * self.data().len() - self.pos() }));
        if m == 0 {
            return 0;
        }
        let v = bitter_peek(self.bytes, self.byte_pos, self.bit_pos, m);
        proof {
            lemma_bits_value_bound(self.bytes@, self.pos(), m as nat);
            if m < 32 {
                lemma_pow2_strictly_increases(m as nat, 32);
            }
            lemma2_to64();
        }
        v as u32
    }
}

impl<'a> Bitreader<'a> {
    /// Reads `n` bits, as `spec_nbits` describes.
    pub fn read_bits_checked(&mut self, n: u32) -> (res: Result<u32, DemoParserError>)
        requires
            old(self).wf(),
            n <= 32,
        ensures
            read_outcome(*old(self), *final(self), res, spec_nbits(old(self).data(), old(self).pos(), n as nat)),
            res.is_ok() ==> res.unwrap() < pow2(n as nat),
    {
        self.read_nbits(n)
    }

    /// Reads the variable-length number of `spec_u_bit_var`.
    pub fn read_u_bit_var(&mut self) -> (res: Result<u32, DemoParserError>)
        requires
            old(self).wf(),
        ensures
            read_outcome(*old(self), *final(self), res, spec_u_bit_var(old(self).data(), old(self).pos())),
    {
        let bits = self.read_bits_checked(6)?;
        let tag = bits & 0b110000;
        if tag == 0b10000 {
            let x = self.read_bits_checked(4)?;
            Ok((bits & 0b1111) | (x << 4))
        } else if tag == 0b100000 {
            let x = self.read_bits_checked(8)?;
            Ok((bits & 0b1111) | (x << 4))
        } else if tag == 0b110000 {
            let x = self.read_bits_checked(28)?;
            Ok((bits & 0b1111) | (x << 4))
        } else {
            Ok(bits)
        }
    }

    /// Reads the 32-bit varint of `spec_bit_varint`.
    pub fn read_varint(&mut self) -> (res: Result<u32, DemoParserError>)
        requires
            old(self).wf(),
        ensures
            read_outcome(*old(self), *final(self), res, spec_bit_varint(old(self).data(), old(self).pos())),
    {
        let ghost d = self.data();
        let ghost p0 = self.pos();
        let mut result: u32 = 0;
        let mut count: u32 = 0;
        while count < 5
            invariant
                self.wf(),
                self.data() == d,
                d == old(self).data(),
                p0 == old(self).pos(),
                count <= 5,
                spec_bit_varint(d, p0) == spec_bit_varint_from(d, self.pos(), count as nat, result),
            decreases 5 - count,
        {
            let b = self.read_bits_checked(8)?;
            result = result | ((b & 127) << (7 * count));
            if b & 0x80 == 0 {
                return Ok(result);
            }
            count += 1;
        }
        Ok(result)
    }

    /// Reads the zig-zag encoded signed varint of `spec_varint32`.
    pub fn read_varint32(&mut self) -> (res: Result<i32, DemoParserError>)
        requires
            old(self).wf(),
        ensures
            read_outcome(*old(self), *final(self), res, spec_varint32(old(self).data(), old(self).pos())),
    {
        let x = self.read_varint()? as i32;
        let mut y = x >> 1;
        if x & 1 != 0 {
            y = !y;
        }
        Ok(y)
    }

    /// Reads the 64-bit varint of `spec_varint64`.
    pub fn read_varint_u_64(&mut self) -> (res: Result<u64, DemoParserError>)
        requires
            old(self).wf(),
        ensures
            read_outcome(*old(self), *final(self), res, spec_varint64(old(self).data(), old(self).pos())),
    {
        let ghost d = self.data();
        let ghost p0 = self.pos();
        let mut result: u64 = 0;
        let mut count: u64 = 0;
        loop
            invariant
                self.wf(),
                self.data() == d,
                d == old(self).data(),
                p0 == old(self).pos(),
                p0 + 8 * count <= self.pos(),
                self.pos() <= 8 * d.len(),
                spec_varint64(d, p0) == spec_varint64_from(d, self.pos(), count as nat, result),
            decreases self.remaining(),
        {
            let ghost p = self.pos();
            let b = self.read_bits_checked(8)?;
            if b < 0x80 {
                if count > 9 || count == 9 && b > 1 {
                    return Err(DemoParserError::MalformedMessage);
                }
                return Ok(result | ((b as u64) << (7 * count)));
            }
            if count <= 9 {
                result = result | (((b as u64) & 127) << (7 * count));
            }
            count += 1;
        }
    }

    /// Reads one bit as a flag.
    pub fn read_boolean(&mut self) -> (res: Result<bool, DemoParserError>)
        requires
            old(self).wf(),
        ensures
            read_outcome(*old(self), *final(self), res, spec_flag(old(self).data(), old(self).pos())),
    {
        let b = self.read_bits_checked(1)?;
        Ok(b != 0)
    }

    /// Reads the field-path number of `spec_ubit_var_fp`.
    pub fn read_ubit_var_fp(&mut self) -> (res: Result<u32, DemoParserError>)
        requires
            old(self).wf(),
        ensures
            read_outcome(*old(self), *final(self), res, spec_ubit_var_fp(old(self).data(), old(self).pos())),
    {
        if self.read_boolean()? {
            return self.read_bits_checked(2);
        }
        if self.read_boolean()? {
            return self.read_bits_checked(4);
        }
        if self.read_boolean()? {
            return self.read_bits_checked(10);
        }
        if self.read_boolean()? {
            return self.read_bits_checked(17);
        }
        self.read_bits_checked(31)
    }
}


impl<'a> Bitreader<'a> {
    /// Reads `n` whole bytes. When fewer are left the stream is unchanged and
    /// the error names how many whole bytes were left.
    pub fn read_n_bytes(&mut self, n: usize) -> (res: Result<Vec<u8>, DemoParserError>)
        requires
            old(self).wf(),
        ensures
            final(self).wf(),
            final(self).data() == old(self).data(),
            old(self).pos() + 8 * n <= 8 * old(self).data().len() ==> {
                &&& res.is_ok()
                &&& res.unwrap()@ == bytes_at(old(self).data(), old(self).pos(), n as nat)
                &&& final(self).pos() == old(self).pos() + 8 * n
            },
            old(self).pos() + 8 * n > 8 * old(self).data().len() ==> {
                &&& final(self).pos() == old(self).pos()
                &&& res matches Err(DemoParserError::FailedByteRead(msg))
                &&& old(self).remaining() + 8 <= usize::MAX ==> msg@ == failed_read_text((old(self).remaining() / 8) as usize, n)
            },
    {
        if !self.has_bytes(n) {
            let left = match self.bits_remaining() {
                Some(bits) => bits / 8,
                None => 0,
            };
            return Err(DemoParserError::FailedByteRead(failed_read_message(left, n)));
        }
        let v = bitter_read_bytes(self.bytes, self.byte_pos, self.bit_pos, n);
        proof {
            assert forall|i: int| 0 <= i < n implies v@[i] == bytes_at(self.bytes@, self.pos(), n as nat)[i] by {
                lemma_bits_value_bound(self.bytes@, self.pos() + 8 * i, 8);
                lemma2_to64();
            }
            assert(v@ =~= bytes_at(self.bytes@, self.pos(), n as nat));
        }
        self.advance_bytes(n);
        Ok(v)
    }

    /// Reads `n` whole bytes into the front of `buf`; the rest of `buf` is
    /// left alone. A buffer shorter than `n` is a malformed message.
    pub fn read_n_bytes_mut(&mut self, n: usize, buf: &mut [u8]) -> (res: Result<(), DemoParserError>)
        requires
            old(self).wf(),
        ensures
            final(self).wf(),
            final(self).data() == old(self).data(),
            final(buf)@.len() == old(buf)@.len(),
            old(buf)@.len() < n ==> res == Err::<(), DemoParserError>(DemoParserError::MalformedMessage)
                && final(buf)@ == old(buf)@ && final(self).pos() == old(self).pos(),
            n <= old(buf)@.len() && old(self).pos() + 8 * n <= 8 * old(self).data().len() ==> {
                &&& res.is_ok()
                &&& final(buf)@ == bytes_at(old(self).data(), old(self).pos(), n as nat) + old(buf)@.skip(n as int)
                &&& final(self).pos() == old(self).pos() + 8 * n
            },
            n <= old(buf)@.len() && old(self).pos() + 8 * n > 8 * old(self).data().len() ==> {
                &&& final(self).pos() == old(self).pos()
                &&& final(buf)@ == old(buf)@
                &&& res matches Err(DemoParserError::FailedByteRead(msg))
                &&& old(self).remaining() + 8 <= usize::MAX ==> msg@ == failed_read_text((old(self).remaining() / 8) as usize, n)
            },
    {
        if buf.len() < n {
            return Err(DemoParserError::MalformedMessage);
        }
        let bytes = self.read_n_bytes(n)?;
        let ghost b0 = buf@;
        let mut i: usize = 0;
        while i < n
            invariant
                i <= n,
                n <= buf@.len(),
                bytes@.len() == n,
                buf@.len() == b0.len(),
                forall|j: int| 0 <= j < i ==> buf@[j] == bytes@[j],
                forall|j: int| i <= j < b0.len() ==> buf@[j] == b0[j],
            decreases n - i,
        {
            buf[i] = bytes[i];
            i += 1;
        }
        assert(buf@ =~= bytes@ + b0.skip(n as int));
        Ok(())
    }

    /// Reads the bytes of a zero-terminated string and decodes them with
    /// `String::from_utf8_lossy`.
    pub fn read_string(&mut self) -> (res: Result<String, DemoParserError>)
        requires
            old(self).wf(),
        ensures
            final(self).wf(),
            final(self).data() == old(self).data(),
            match spec_cstring(old(self).data(), old(self).pos()) {
                Ok((bytes, end)) => res.is_ok() && res.unwrap()@ == utf8_lossy(bytes) && final(self).pos() == end
                    && ((forall|i: int| 0 <= i < bytes.len() ==> #[trigger] bytes[i] < 128) ==> res.unwrap()@ == bytes.map_values(|b: u8| b as char)),
                Err(e) => res == Err::<String, DemoParserError>(e),
            },
    {
        let ghost d = self.data();
        let ghost p0 = self.pos();
        let mut bytes: Vec<u8> = Vec::new();
        loop
            invariant
                self.wf(),
                self.data() == d,
                d == old(self).data(),
                p0 == old(self).pos(),
                self.pos() <= 8 * d.len(),
                spec_cstring(d, p0) == match spec_cstring(d, self.pos()) {
                    Ok((rest, end)) => Ok((bytes@ + rest, end)),
                    Err(e) => Err(e),
                },
            decreases self.remaining(),
        {
            let ghost p = self.pos();
            let c = self.read_bits_checked(8)?;
            if c == 0 {
                assert(bytes@ + Seq::<u8>::empty() =~= bytes@);
                return Ok(lossy_string(bytes.as_slice()));
            }
            proof {
                lemma2_to64();
                let rest = spec_cstring(d, self.pos());
                match rest {
                    Ok((r, e)) => {
                        assert(bytes@.push(c as u8) + r =~= bytes@ + (seq![c as u8] + r));
                    },
                    Err(_) => {},
                }
            }
            bytes.push(c as u8);
        }
    }

    /// Reads the parts of a bit-packed coordinate: whether it is negative,
    /// its whole part and its fraction in 32nds. A coordinate whose two
    /// presence flags are clear is zero: `(false, 0, 0)` with no sign bit.
    pub fn read_bit_coord_parts(&mut self) -> (res: Result<(bool, u32, u32), DemoParserError>)
        requires
            old(self).wf(),
        ensures
            read_outcome(*old(self), *final(self), res, spec_bit_coord(old(self).data(), old(self).pos())),
    {
        let i2 = self.read_boolean()?;
        let f2 = self.read_boolean()?;
        if !i2 && !f2 {
            return Ok((false, 0, 0));
        }
        let is_negative = self.read_boolean()?;
        let mut int_val: u32 = 0;
        let mut frac_val: u32 = 0;
        proof {
            lemma2_to64();
        }
        if i2 {
            int_val = self.read_bits_checked(14)? + 1;
        }
        if f2 {
            frac_val = self.read_bits_checked(5)?;
        }
        Ok((is_negative, int_val, frac_val))
    }
}

} // verus!
