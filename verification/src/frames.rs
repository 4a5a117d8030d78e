use vstd::prelude::*;
use vstd::utf8::{valid_utf8, pop_first_scalar, leading_bits_width_1};
use crate::error::DemoParserError;
use crate::strings::{decimal, write_decimal};
use crate::varint::{read_varint, spec_varint};
use crate::compression::{snappy_len, snappy_decompress, snap_decompress_len, snap_decompress};

verus! {

/// The byte at which the demo header ends and the first frame begins.
pub const HEADER_ENDS_AT_BYTE: usize = 16;
/// The usual size of the buffer that holds one decompressed packet.
pub const OUTER_BUF_DEFAULT_LEN: usize = 400_000;
/// The usual size of the buffer that holds one decompressed frame.
pub const INNER_BUF_DEFAULT_LEN: usize = 122_880;

/// The command of a demo frame.
#[derive(Clone, Copy, Debug, PartialEq, Eq, Structural)]
pub enum DemoCommand {
    DemError,
    DemStop,
    DemFileHeader,
    DemFileInfo,
    DemSyncTick,
    DemSendTables,
    DemClassInfo,
    DemStringTables,
    DemPacket,
    DemSignonPacket,
    DemConsoleCmd,
    DemCustomData,
    DemCustomDataCallbacks,
    DemUserCmd,
    DemFullPacket,
    DemSaveGame,
    DemSpawnGroups,
    DemAnimationData,
    DemAnimationHeader,
    DemMax,
    DemIsCompressed,
}

/// The command with number `n`, if there is one.
pub open spec fn spec_demo_command(n: i32) -> Option<DemoCommand> {
    if n == -1 {
        Some(DemoCommand::DemError)
    } else if n == 0 {
        Some(DemoCommand::DemStop)
    } else if n == 1 {
        Some(DemoCommand::DemFileHeader)
    } else if n == 2 {
        Some(DemoCommand::DemFileInfo)
    } else if n == 3 {
        Some(DemoCommand::DemSyncTick)
    } else if n == 4 {
        Some(DemoCommand::DemSendTables)
    } else if n == 5 {
        Some(DemoCommand::DemClassInfo)
    } else if n == 6 {
        Some(DemoCommand::DemStringTables)
    } else if n == 7 {
        Some(DemoCommand::DemPacket)
    } else if n == 8 {
        Some(DemoCommand::DemSignonPacket)
    } else if n == 9 {
        Some(DemoCommand::DemConsoleCmd)
    } else if n == 10 {
        Some(DemoCommand::DemCustomData)
    } else if n == 11 {
        Some(DemoCommand::DemCustomDataCallbacks)
    } else if n == 12 {
        Some(DemoCommand::DemUserCmd)
    } else if n == 13 {
        Some(DemoCommand::DemFullPacket)
    } else if n == 14 {
        Some(DemoCommand::DemSaveGame)
    } else if n == 15 {
        Some(DemoCommand::DemSpawnGroups)
    } else if n == 16 {
        Some(DemoCommand::DemAnimationData)
    } else if n == 17 {
        Some(DemoCommand::DemAnimationHeader)
    } else if n == 18 {
        Some(DemoCommand::DemMax)
    } else if n == 64 {
        Some(DemoCommand::DemIsCompressed)
    } else {
        None
    }
}

impl DemoCommand {
    /// The command with number `n`, if there is one.
    pub fn from_i32(n: i32) -> (r: Option<DemoCommand>)
        ensures
            r == spec_demo_command(n),
    {
        match n {
            -1 => Some(DemoCommand::DemError),
            0 => Some(DemoCommand::DemStop),
            1 => Some(DemoCommand::DemFileHeader),
            2 => Some(DemoCommand::DemFileInfo),
            3 => Some(DemoCommand::DemSyncTick),
            4 => Some(DemoCommand::DemSendTables),
            5 => Some(DemoCommand::DemClassInfo),
            6 => Some(DemoCommand::DemStringTables),
            7 => Some(DemoCommand::DemPacket),
            8 => Some(DemoCommand::DemSignonPacket),
            9 => Some(DemoCommand::DemConsoleCmd),
            10 => Some(DemoCommand::DemCustomData),
            11 => Some(DemoCommand::DemCustomDataCallbacks),
            12 => Some(DemoCommand::DemUserCmd),
            13 => Some(DemoCommand::DemFullPacket),
            14 => Some(DemoCommand::DemSaveGame),
            15 => Some(DemoCommand::DemSpawnGroups),
            16 => Some(DemoCommand::DemAnimationData),
            17 => Some(DemoCommand::DemAnimationHeader),
            18 => Some(DemoCommand::DemMax),
            64 => Some(DemoCommand::DemIsCompressed),
            _ => None,
        }
    }
}

/// One frame of a demo: its command, tick, where it starts, where its
/// payload of `size` bytes starts, and whether that payload is compressed.
#[derive(Clone, Copy, Debug, PartialEq, Eq, Structural)]
pub struct Frame {
    pub size: usize,
    pub tick: i32,
    pub starts_at: usize,
    pub ends_at: usize,
    pub is_compressed: bool,
    pub demo_cmd: DemoCommand,
}

/// A stretch of the demo, from one full packet to the next.
#[derive(Clone, Copy, Debug, PartialEq, Eq, Structural)]
pub struct DemoChunk {
    pub start: usize,
    pub end: usize,
    pub end_of_demo: bool,
}

/// Walks the frames of a demo.
pub struct FrameParser {
    pub ptr: usize,
    pub fullpacket_offsets: Vec<usize>,
}

/// Where `read_varint` leaves its position after reading at byte `p`: past
/// the varint, or, where the bytes run out, at their end.
pub open spec fn varint_stop(d: Seq<u8>, p: int) -> int {
    match spec_varint(d, p) {
        Some((v, q)) => q,
        None => if p < d.len() { d.len() as int } else { p },
    }
}

/// Where reading a frame at byte `p` leaves the position, whatever the
/// outcome: where a varint ran out, after the three varints for an unknown
/// command or a payload end past `usize::MAX`, and else after the payload.
pub open spec fn spec_frame_stop(d: Seq<u8>, p: int) -> int {
    match spec_varint(d, p) {
        None => varint_stop(d, p),
        Some((cmd_u, p1)) => match spec_varint(d, p1) {
            None => varint_stop(d, p1),
            Some((tick_u, p2)) => match spec_varint(d, p2) {
                None => varint_stop(d, p2),
                Some((size_u, p3)) => {
                    if spec_demo_command((cmd_u as i32) & !64i32) is Some && p3 + size_u <= usize::MAX {
                        p3 + size_u
                    } else {
                        p3
                    }
                },
            },
        },
    }
}

/// The frame that starts at byte `p`: three varints (command, tick, payload
/// size) and then the payload. Bit 64 of the command marks compression; the
/// rest must name a known command. The result is the frame and the byte after
/// its payload.
pub open spec fn spec_read_frame(d: Seq<u8>, p: int) -> Result<(Frame, int), DemoParserError> {
    match spec_varint(d, p) {
        None => Err(DemoParserError::OutOfBytesError),
        Some((cmd_u, p1)) => match spec_varint(d, p1) {
            None => Err(DemoParserError::OutOfBytesError),
            Some((tick_u, p2)) => match spec_varint(d, p2) {
                None => Err(DemoParserError::OutOfBytesError),
                Some((size_u, p3)) => {
                    let cmd = cmd_u as i32;
                    let masked = cmd & !64i32;
                    match spec_demo_command(masked) {
                        None => Err(DemoParserError::UnknownDemoCmd(masked)),
                        Some(c) => if p3 + size_u > usize::MAX {
                            Err(DemoParserError::OutOfBytesError)
                        } else {
                            Ok((Frame {
                                size: size_u as usize,
                                tick: tick_u as i32,
                                starts_at: p as usize,
                                ends_at: p3 as usize,
                                is_compressed: cmd & 64i32 == 64i32,
                                demo_cmd: c,
                            }, p3 + size_u))
                        },
                    }
                },
            },
        },
    }
}

/// A varint read from a position within the bytes ends after it, within
/// the bytes.
pub proof fn lemma_varint_advances(d: Seq<u8>, p: int)
    ensures
        spec_varint(d, p) matches Some((v, end)) ==> p < end <= d.len(),
{
    lemma_varint_from_advances(d, p, 0, 0);
}

proof fn lemma_varint_from_advances(d: Seq<u8>, p: int, i: nat, acc: u32)
    requires
        i < 5,
    ensures
        crate::varint::spec_varint_from(d, p, i, acc) matches Some((v, end)) ==> p < end <= d.len(),
    decreases 5 - i,
{
    if 0 <= p < d.len() {
        let b = d[p] as u32;
        let acc2 = acc | ((b & 127u32) << ((7 * i) as u32));
        if b & 0x80u32 != 0 && i + 1 < 5 {
            lemma_varint_from_advances(d, p + 1, i + 1, acc2);
        }
    }
}

/// A frame read from byte `p` starts at `p` and ends past it.
pub proof fn lemma_frame_advances(d: Seq<u8>, p: int)
    ensures
        spec_read_frame(d, p) matches Ok((f, end)) ==> p < end && f.starts_at == p && p <= f.ends_at <= end,
{
    lemma_varint_advances(d, p);
    if let Some((c, p1)) = spec_varint(d, p) {
        lemma_varint_advances(d, p1);
        if let Some((t, p2)) = spec_varint(d, p1) {
            lemma_varint_advances(d, p2);
        }
    }
}

/// The chunks found from byte `ptr` on, the current chunk having started at
/// `chunk_start` and `acc` holding the chunks already closed: each full
/// packet closes the current chunk and starts the next; the walk stops at
/// the first frame whose payload reaches the end of the demo.
pub open spec fn spec_chunks_from(d: Seq<u8>, ptr: int, chunk_start: int, acc: Seq<DemoChunk>) -> Result<Seq<DemoChunk>, DemoParserError>
    decreases d.len() - ptr,
{
    match spec_read_frame(d, ptr) {
        Err(e) => Err(e),
        Ok((f, p2)) => if p2 >= d.len() {
            Ok(acc)
        } else if p2 <= ptr {
            Err(DemoParserError::OutOfBytesError)
        } else if f.demo_cmd != DemoCommand::DemFullPacket {
            spec_chunks_from(d, p2, chunk_start, acc)
        } else {
            spec_chunks_from(d, p2, f.starts_at as int,
                acc.push(DemoChunk { start: chunk_start as usize, end: f.starts_at, end_of_demo: false }))
        },
    }
}

/// The chunks of a demo: the stretches between full packets, starting at
/// the end of the header, with a last chunk up to the end of the demo.
pub open spec fn spec_demo_chunks(d: Seq<u8>) -> Result<Seq<DemoChunk>, DemoParserError> {
    match spec_chunks_from(d, HEADER_ENDS_AT_BYTE as int, HEADER_ENDS_AT_BYTE as int, Seq::empty()) {
        Err(e) => Err(e),
        Ok(cs) => Ok(if cs.len() > 0 && cs.last().end < d.len() {
            cs.push(DemoChunk { start: cs.last().end, end: d.len() as usize, end_of_demo: false })
        } else {
            cs
        }),
    }
}

/// Closed chunks: the first starts at the end of the header, each ends
/// where the next starts, none ends before it starts, and the last ends
/// before byte `len`.
pub open spec fn closed_chunks(cs: Seq<DemoChunk>, len: int) -> bool {
    &&& cs.len() > 0 ==> cs[0].start == HEADER_ENDS_AT_BYTE && cs.last().end < len
    &&& forall|i: int| 0 <= i < cs.len() - 1 ==> #[trigger] cs[i].end == cs[i + 1].start
    &&& forall|i: int| 0 <= i < cs.len() ==> #[trigger] cs[i].start <= cs[i].end && !cs[i].end_of_demo
}

proof fn lemma_chunks_from_closed(d: Seq<u8>, ptr: int, chunk_start: int, acc: Seq<DemoChunk>)
    requires
        closed_chunks(acc, d.len() as int),
        acc.len() > 0 ==> acc.last().end == chunk_start,
        acc.len() == 0 ==> chunk_start == HEADER_ENDS_AT_BYTE,
        chunk_start <= ptr,
    ensures
        spec_chunks_from(d, ptr, chunk_start, acc) matches Ok(cs) ==> closed_chunks(cs, d.len() as int),
    decreases d.len() - ptr,
{
    lemma_frame_advances(d, ptr);
    match spec_read_frame(d, ptr) {
        Err(e) => {},
        Ok((f, p2)) => {
            if p2 >= d.len() {
            } else if p2 <= ptr {
            } else if f.demo_cmd != DemoCommand::DemFullPacket {
                lemma_chunks_from_closed(d, p2, chunk_start, acc);
            } else {
                let c = DemoChunk { start: chunk_start as usize, end: f.starts_at, end_of_demo: false };
                let acc2 = acc.push(c);
                assert(closed_chunks(acc2, d.len() as int)) by {
                    assert forall|i: int| 0 <= i < acc2.len() - 1 implies #[trigger] acc2[i].end == acc2[i + 1].start by {
                        if i < acc.len() - 1 {
                            assert(acc2[i] == acc[i] && acc2[i + 1] == acc[i + 1]);
                        }
                    }
                    assert forall|i: int| 0 <= i < acc2.len() implies #[trigger] acc2[i].start <= acc2[i].end && !acc2[i].end_of_demo by {
                        if i < acc.len() {
                            assert(acc2[i] == acc[i]);
                        }
                    }
                }
                lemma_chunks_from_closed(d, p2, f.starts_at as int, acc2);
            }
        },
    }
}

/// The chunks of a demo tile it from the end of the header to its last
/// byte: the first chunk starts at byte 16, every chunk ends where the next
/// starts, no chunk ends before it starts, and the last ends at the end of
/// the demo.
pub proof fn lemma_chunks_tile_demo(d: Seq<u8>)
    requires
        d.len() <= usize::MAX,
    ensures
        spec_demo_chunks(d) matches Ok(cs) ==> cs.len() > 0 ==> {
            &&& cs[0].start == HEADER_ENDS_AT_BYTE
            &&& cs.last().end == d.len()
            &&& forall|i: int| 0 <= i < cs.len() - 1 ==> #[trigger] cs[i].end == cs[i + 1].start
            &&& forall|i: int| 0 <= i < cs.len() ==> #[trigger] cs[i].start <= cs[i].end
        },
{
    lemma_chunks_from_closed(d, HEADER_ENDS_AT_BYTE as int, HEADER_ENDS_AT_BYTE as int, Seq::empty());
    if let Ok(cs) = spec_chunks_from(d, HEADER_ENDS_AT_BYTE as int, HEADER_ENDS_AT_BYTE as int, Seq::empty()) {
        if cs.len() > 0 {
            let t = DemoChunk { start: cs.last().end, end: d.len() as usize, end_of_demo: false };
            let all = cs.push(t);
            assert forall|i: int| 0 <= i < all.len() - 1 implies #[trigger] all[i].end == all[i + 1].start by {
                if i < cs.len() - 1 {
                    assert(all[i] == cs[i] && all[i + 1] == cs[i + 1]);
                }
            }
            assert forall|i: int| 0 <= i < all.len() implies #[trigger] all[i].start <= all[i].end by {
                if i < cs.len() {
                    assert(all[i] == cs[i]);
                }
            }
        }
    }
}

impl FrameParser {
    /// Reads the frame at `*ptr` and moves `*ptr` past its payload.
    pub fn read_frame(demo_bytes: &[u8], ptr: &mut usize) -> (res: Result<Frame, DemoParserError>)
        ensures
            match spec_read_frame(demo_bytes@, *old(ptr) as int) {
                Ok((f, end)) => res == Ok::<Frame, DemoParserError>(f) && *final(ptr) == end,
                Err(e) => res == Err::<Frame, DemoParserError>(e),
            },
            *final(ptr) == spec_frame_stop(demo_bytes@, *old(ptr) as int),
    {
        let starts_at = *ptr;
        let cmd = read_varint(demo_bytes, ptr)? as i32;
        let tick = read_varint(demo_bytes, ptr)? as i32;
        let size = read_varint(demo_bytes, ptr)? as usize;
        let ends_at = *ptr;

        let is_compressed = (cmd & 64) == 64;
        let demo_cmd = match DemoCommand::from_i32(cmd & !64) {
            Some(c) => c,
            None => return Err(DemoParserError::UnknownDemoCmd(cmd & !64)),
        };
        *ptr = match ends_at.checked_add(size) {
            Some(end) => end,
            None => return Err(DemoParserError::OutOfBytesError),
        };
        Ok(Frame { ends_at, size, tick, starts_at, is_compressed, demo_cmd })
    }
}


impl FrameParser {
    /// Splits a demo into chunks that start at full packets, as
    /// `spec_demo_chunks` describes.
    pub fn start(&mut self, demo_bytes: &[u8]) -> (res: Result<Vec<DemoChunk>, DemoParserError>)
        ensures
            match spec_demo_chunks(demo_bytes@) {
                Ok(cs) => res.is_ok() && res.unwrap()@ == cs,
                Err(e) => res == Err::<Vec<DemoChunk>, DemoParserError>(e),
            },
    {
        let ghost d = demo_bytes@;
        let demo_size = demo_bytes.len();
        let mut chunk_start: usize = HEADER_ENDS_AT_BYTE;
        let mut ptr: usize = chunk_start;
        let mut chunks: Vec<DemoChunk> = Vec::new();
        let ghost target = spec_chunks_from(d, HEADER_ENDS_AT_BYTE as int, HEADER_ENDS_AT_BYTE as int, Seq::empty());
        loop
            invariant_except_break
                target == spec_chunks_from(d, ptr as int, chunk_start as int, chunks@),
            invariant
                d == demo_bytes@,
                demo_size == d.len(),
                target == spec_chunks_from(d, HEADER_ENDS_AT_BYTE as int, HEADER_ENDS_AT_BYTE as int, Seq::empty()),
            ensures
                target == Ok::<Seq<DemoChunk>, DemoParserError>(chunks@),
            decreases demo_size - ptr,
        {
            let ghost p = ptr;
            proof {
                lemma_frame_advances(d, p as int);
            }
            let frame = Self::read_frame(demo_bytes, &mut ptr)?;
            if ptr >= demo_size {
                break;
            }
            if frame.demo_cmd != DemoCommand::DemFullPacket {
                continue;
            }
            let chunk = DemoChunk { start: chunk_start, end: frame.starts_at, end_of_demo: false };
            chunk_start = frame.starts_at;
            chunks.push(chunk);
        }
        let n = chunks.len();
        if n > 0 {
            let last_end = chunks[n - 1].end;
            if last_end < demo_size {
                chunks.push(DemoChunk { start: last_end, end: demo_size, end_of_demo: false });
            }
        }
        Ok(chunks)
    }
}


impl Frame {
    /// The payload of this frame, decompressed when it is compressed. A
    /// payload that does not lie within the demo is malformed; a failed
    /// decompression carries snap's error text. Decompressed bytes go to the
    /// front of `buf`, which grows when it is too short.
    pub fn get_bytes<'b>(&self, buf: &'b mut Vec<u8>, demo_bytes: &'b [u8]) -> (res: Result<&'b [u8], DemoParserError>)
        ensures
            self.ends_at + self.size > demo_bytes@.len() ==> res == Err::<&[u8], DemoParserError>(DemoParserError::MalformedMessage),
            self.ends_at + self.size <= demo_bytes@.len() ==> {
                let packet = demo_bytes@.subrange(self.ends_at as int, self.ends_at + self.size);
                if !self.is_compressed {
                    res is Ok && res.unwrap()@ == packet
                } else {
                    match snappy_len(packet) {
                        Err(t) => res matches Err(DemoParserError::DecompressionFailure(s)) && s@ == t,
                        Ok(_) => match snappy_decompress(packet) {
                            Ok(b) => res is Ok && res.unwrap()@ == b,
                            Err(t) => res matches Err(DemoParserError::DecompressionFailure(s)) && s@ == t,
                        },
                    }
                }
            },
    {
        let total = demo_bytes.len();
        let end = match self.ends_at.checked_add(self.size) {
            Some(e) => e,
            None => return Err(DemoParserError::MalformedMessage),
        };
        if end > demo_bytes.len() {
            return Err(DemoParserError::MalformedMessage);
        }
        let packet_bytes = &demo_bytes[self.ends_at..end];
        if !self.is_compressed {
            return Ok(packet_bytes);
        }
        let len = match snap_decompress_len(packet_bytes) {
            Ok(n) => n,
            Err(t) => return Err(DemoParserError::DecompressionFailure(t)),
        };
        if buf.len() < len {
            buf.resize(len, 0);
        }
        let n = match snap_decompress(packet_bytes, buf) {
            Ok(n) => n,
            Err(t) => return Err(DemoParserError::DecompressionFailure(t)),
        };
        let out: &'b [u8] = buf.as_slice();
        let r = &out[0..n];
        assert(r@ =~= buf@.take(n as int));
        Ok(r)
    }
}


/// All bytes are ASCII.
pub open spec fn all_ascii(bytes: Seq<u8>) -> bool {
    forall|i: int| 0 <= i < bytes.len() ==> #[trigger] bytes[i] < 128
}

/// ASCII bytes are valid UTF-8.
pub proof fn lemma_ascii_valid_utf8(bytes: Seq<u8>)
    requires
        all_ascii(bytes),
    ensures
        valid_utf8(bytes),
    decreases bytes.len(),
{
    if bytes.len() > 0 {
        let b = bytes[0];
        assert(leading_bits_width_1(b) < 128) by (bit_vector)
            requires
                b < 128u8,
        ;
        let rest = pop_first_scalar(bytes);
        assert(rest =~= bytes.subrange(1, bytes.len() as int));
        lemma_ascii_valid_utf8(rest);
    }
}

/// Calls `std::str::from_utf8` and says whether it succeeded: the
/// contract claims the result is whether the bytes are valid UTF-8, as
/// vstd's `valid_utf8` defines it (the UTF-8 of the Unicode standard,
/// which std documents that it checks).
#[verifier::external_body]
fn is_utf8(bytes: &[u8]) -> (r: bool)
    ensures
        r == valid_utf8(bytes@),
{
    std::str::from_utf8(bytes).is_ok()
}

/// The text of the error for a demo that ends early, with the missing share
/// given in whole percent and hundredths.
pub open spec fn ends_early_text(expected: u32, actual: usize, whole: u64, hundredths: u64) -> Seq<char> {
    "Demo ends early. Expected length: "@ + decimal(expected as nat) + ", actual length: "@
        + decimal(actual as nat) + ". Missing: "@ + decimal(whole as nat) + "."@ + two_digits(hundredths as nat) + "%"@
}

/// `n` in decimal, padded with a leading zero to at least two digits.
pub open spec fn two_digits(n: nat) -> Seq<char> {
    if n < 10 {
        seq!['0'] + decimal(n)
    } else {
        decimal(n)
    }
}

/// The message of a demo that ends early.
fn ends_early_message(expected: u32, actual: usize, whole: u64, hundredths: u64) -> (s: String)
    ensures
        s@ == ends_early_text(expected, actual, whole, hundredths),
{
    let mut s = String::from_str("Demo ends early. Expected length: ");
    write_decimal(expected as u64, &mut s);
    s.append(", actual length: ");
    write_decimal(actual as u64, &mut s);
    s.append(". Missing: ");
    write_decimal(whole, &mut s);
    s.append(".");
    if hundredths < 10 {
        proof { reveal_strlit("0"); }
        s.append("0");
    }
    write_decimal(hundredths, &mut s);
    s.append("%");
    assert(s@ =~= ends_early_text(expected, actual, whole, hundredths));
    s
}

/// The magic bytes of a Source 2 demo.
pub open spec fn source2_magic() -> Seq<u8> {
    seq![80u8, 66, 68, 69, 77, 83, 50, 0]
}

/// The magic bytes of a Source 1 demo.
pub open spec fn source1_magic() -> Seq<u8> {
    seq![72u8, 76, 50, 68, 69, 77, 79, 0]
}

/// The length the header announces: the little-endian `u32` at bytes 8 to
/// 11, plus 18, wrapping around at 2^32.
pub open spec fn expected_len(d: Seq<u8>) -> u32 {
    ((d[8] as int + 256 * d[9] + 65536 * d[10] + 16777216 * d[11] + 18) % 0x1_0000_0000) as u32
}

/// The share of the expected length that is missing, in hundredths of a
/// percent, rounded half up.
pub open spec fn missing_hundredths(expected: int, actual: int) -> int {
    (20000 * (expected - actual) + expected) / (2 * expected)
}

/// Compares two byte slices.
fn bytes_equal(a: &[u8], b: &[u8]) -> (r: bool)
    ensures
        r == (a@ == b@),
{
    if a.len() != b.len() {
        return false;
    }
    let mut i: usize = 0;
    while i < a.len()
        invariant
            a@.len() == b@.len(),
            i <= a@.len(),
            forall|j: int| 0 <= j < i ==> a@[j] == b@[j],
        decreases a@.len() - i,
    {
        if a[i] != b[i] {
            return false;
        }
        i += 1;
    }
    assert(a@ =~= b@);
    true
}

/// Checks the header of a demo: it must hold 16 bytes; its first eight,
/// when they are valid UTF-8, must be the Source 2 magic (the Source 1 magic
/// gives its own error); and the demo must not be more than a tenth shorter
/// than the length the header announces.
pub fn handle_short_header(bytes: &[u8]) -> (res: Result<(), DemoParserError>)
    ensures
        bytes@.len() < HEADER_ENDS_AT_BYTE ==> res == Err::<(), DemoParserError>(DemoParserError::OutOfBytesError),
        bytes@.len() >= HEADER_ENDS_AT_BYTE ==> {
            let magic = bytes@.take(8);
            let expected = expected_len(bytes@) as int;
            if valid_utf8(magic) && magic != source2_magic() {
                if magic == source1_magic() {
                    res == Err::<(), DemoParserError>(DemoParserError::Source1DemoError)
                } else {
                    res == Err::<(), DemoParserError>(DemoParserError::UnknownFile)
                }
            } else if 10 * bytes@.len() < 9 * expected {
                let h = missing_hundredths(expected, bytes@.len() as int);
                res matches Err(DemoParserError::DemoEndsEarly(msg))
                    && msg@ == ends_early_text(expected as u32, bytes@.len() as usize, (h / 100) as u64, (h % 100) as u64)
            } else {
                res is Ok
            }
        },
        bytes@.len() >= HEADER_ENDS_AT_BYTE && all_ascii(bytes@.take(8)) && bytes@.take(8) != source2_magic() ==>
            if bytes@.take(8) == source1_magic() {
                res == Err::<(), DemoParserError>(DemoParserError::Source1DemoError)
            } else {
                res == Err::<(), DemoParserError>(DemoParserError::UnknownFile)
            },
{
    proof {
        if bytes@.len() >= HEADER_ENDS_AT_BYTE && all_ascii(bytes@.take(8)) {
            lemma_ascii_valid_utf8(bytes@.take(8));
        }
    }
    let file_len = bytes.len();
    if file_len < HEADER_ENDS_AT_BYTE {
        return Err(DemoParserError::OutOfBytesError);
    }
    let magic = &bytes[0..8];
    if is_utf8(magic) {
        let s2: [u8; 8] = [80, 66, 68, 69, 77, 83, 50, 0];
        let s1: [u8; 8] = [72, 76, 50, 68, 69, 77, 79, 0];
        assert(s2@ =~= source2_magic());
        assert(s1@ =~= source1_magic());
        assert(magic@ =~= bytes@.take(8));
        if !bytes_equal(magic, s2.as_slice()) {
            if bytes_equal(magic, s1.as_slice()) {
                return Err(DemoParserError::Source1DemoError);
            }
            return Err(DemoParserError::UnknownFile);
        }
    }
    let announced: u64 = bytes[8] as u64 + 256 * (bytes[9] as u64) + 65536 * (bytes[10] as u64) + 16777216 * (bytes[11] as u64);
    let expected: u32 = ((announced + 18) % 0x1_0000_0000) as u32;
    let exp = expected as u128;
    let len = file_len as u128;
    if 10 * len < 9 * exp {
        let h = (20000 * (exp - len) + exp) / (2 * exp);
        let msg = ends_early_message(expected, file_len, (h / 100) as u64, (h % 100) as u64);
        return Err(DemoParserError::DemoEndsEarly(msg));
    }
    Ok(())
}

} // verus!
