use demoparser::bitreader::Bitreader;
use demoparser::error::DemoParserError;
use demoparser::field_path::FieldPath;
use demoparser::frames::{handle_short_header, DemoChunk, DemoCommand, Frame, FrameParser};
use demoparser::numtext::{parse_i32, parse_u32};
use demoparser::varint::read_varint;

/// Writes bits into bytes, lowest bit of each byte first.
struct BitWriter {
    bytes: Vec<u8>,
    n: usize,
}

impl BitWriter {
    fn new() -> BitWriter {
        BitWriter { bytes: Vec::new(), n: 0 }
    }
    fn bits(&mut self, v: u64, count: usize) {
        for i in 0..count {
            if self.n % 8 == 0 {
                self.bytes.push(0);
            }
            if (v >> i) & 1 == 1 {
                let last = self.bytes.len() - 1;
                self.bytes[last] |= 1 << (self.n % 8);
            }
            self.n += 1;
        }
    }
}

#[test]
fn varint_reads_two_bytes() {
    let bytes = [0x96u8, 0x01, 0x05];
    let mut ptr = 0usize;
    assert_eq!(read_varint(&bytes, &mut ptr), Ok(150));
    assert_eq!(ptr, 2);
    assert_eq!(read_varint(&bytes, &mut ptr), Ok(5));
    assert_eq!(ptr, 3);
}

#[test]
fn varint_runs_out_of_bytes() {
    let bytes = [0x80u8, 0x80];
    let mut ptr = 0usize;
    assert_eq!(read_varint(&bytes, &mut ptr), Err(DemoParserError::OutOfBytesError));
    assert_eq!(ptr, 2);
}

#[test]
fn bitreader_reads_bits_in_order() {
    let bytes = [0b0101_1010u8, 0xff];
    let mut br = Bitreader::new(&bytes);
    assert_eq!(br.read_nbits(3), Ok(0b010));
    assert_eq!(br.read_boolean(), Ok(true));
    assert_eq!(br.read_nbits(4), Ok(0b0101));
    assert_eq!(br.read_nbits(8), Ok(0xff));
    assert_eq!(br.read_nbits(1), Err(DemoParserError::OutOfBitsError));
}

#[test]
fn bitreader_reads_split_reads_as_one() {
    let bytes = [0x34u8, 0x12, 0x00, 0x00];
    let mut a = Bitreader::new(&bytes);
    let lo = a.read_nbits(5).unwrap();
    let hi = a.read_nbits(11).unwrap();
    let mut b = Bitreader::new(&bytes);
    assert_eq!(b.read_nbits(16), Ok(lo | (hi << 5)));
    assert_eq!(lo | (hi << 5), 0x1234);
}

#[test]
fn bitreader_reads_varint_and_string() {
    let mut w = BitWriter::new();
    w.bits(1, 1);
    w.bits(0xAC, 8);
    w.bits(0x02, 8);
    for c in b"hi\0" {
        w.bits(*c as u64, 8);
    }
    let mut br = Bitreader::new(&w.bytes);
    assert_eq!(br.read_boolean(), Ok(true));
    assert_eq!(br.read_varint(), Ok(300));
    assert_eq!(br.read_string(), Ok("hi".to_string()));
}

#[test]
fn bitreader_short_byte_read_names_what_was_left() {
    let bytes = [1u8, 2, 3];
    let mut br = Bitreader::new(&bytes);
    assert_eq!(br.read_n_bytes(2), Ok(vec![1, 2]));
    assert_eq!(
        br.read_n_bytes(5),
        Err(DemoParserError::FailedByteRead(
            "Failed to read message/command. bytes left in stream: 1, requested bytes: 5".to_string()
        ))
    );
}

#[test]
fn bitreader_reads_u_bit_var() {
    let mut w = BitWriter::new();
    // low four bits 0b0011 with tag 0b01: four more bits follow.
    w.bits(0b01_0011, 6);
    w.bits(0b1010, 4);
    let mut br = Bitreader::new(&w.bytes);
    assert_eq!(br.read_u_bit_var(), Ok(0b1010_0011));
}

#[test]
fn field_path_ops_move_the_path() {
    let mut fp = FieldPath::default();
    assert_eq!(fp.last, 0);
    fp.plus_one().unwrap();
    fp.plus_three().unwrap();
    assert_eq!(fp.path[0], 3);
    fp.push_one_left_delta_zero_right_zero().unwrap();
    assert_eq!(fp.last, 1);
    assert_eq!(fp.path[1], 0);
    fp.push_one_left_delta_one_right_zero().unwrap();
    assert_eq!(fp.last, 2);
    assert_eq!(fp.path[1], 1);
    fp.pop_one_plus_one().unwrap();
    assert_eq!(fp.last, 1);
    assert_eq!(fp.path[1], 2);
    fp.pop_all_but_one_plus_one().unwrap();
    assert_eq!(fp.last, 0);
    assert_eq!(fp.path[0], 4);
}

#[test]
fn field_path_pop_special_past_start_fails() {
    let mut fp = FieldPath::default();
    assert_eq!(fp.pop_special(1), Err(DemoParserError::IllegalPathOp));
    fp.push_one_left_delta_zero_right_zero().unwrap();
    assert_eq!(fp.pop_special(1), Ok(()));
    assert_eq!(fp.last, 0);
}

#[test]
fn field_path_entry_can_be_changed() {
    let mut fp = FieldPath::default();
    *fp.get_entry_mut(0).unwrap() = 9;
    assert_eq!(fp.path[0], 9);
    assert!(fp.get_entry_mut(7).is_err());
}

#[test]
fn frame_is_read_with_its_payload_skipped() {
    let bytes = [7u8, 5, 2, 0xAA, 0xBB];
    let mut ptr = 0usize;
    let f = FrameParser::read_frame(&bytes, &mut ptr).unwrap();
    assert_eq!(
        f,
        Frame { size: 2, tick: 5, starts_at: 0, ends_at: 3, is_compressed: false, demo_cmd: DemoCommand::DemPacket }
    );
    assert_eq!(ptr, 5);
}

#[test]
fn frame_compression_bit_is_seen() {
    let bytes = [7u8 | 64, 1, 0];
    let mut ptr = 0usize;
    let f = FrameParser::read_frame(&bytes, &mut ptr).unwrap();
    assert!(f.is_compressed);
    assert_eq!(f.demo_cmd, DemoCommand::DemPacket);
}

#[test]
fn frame_with_unknown_command_fails() {
    let bytes = [30u8, 0, 0];
    let mut ptr = 0usize;
    assert_eq!(FrameParser::read_frame(&bytes, &mut ptr), Err(DemoParserError::UnknownDemoCmd(30)));
}

#[test]
fn demo_is_split_at_full_packets() {
    let mut demo = vec![0u8; 16];
    demo.extend_from_slice(&[7, 0, 0]);
    demo.extend_from_slice(&[13, 1, 0]);
    demo.extend_from_slice(&[7, 2, 0]);
    let mut fp = FrameParser { ptr: 0, fullpacket_offsets: vec![] };
    let chunks = fp.start(&demo).unwrap();
    assert_eq!(
        chunks,
        vec![
            DemoChunk { start: 16, end: 19, end_of_demo: false },
            DemoChunk { start: 19, end: 25, end_of_demo: false },
        ]
    );
}

#[test]
fn compressed_frame_payload_is_decompressed() {
    let payload = b"hello hello hello hello".to_vec();
    let compressed = snap::raw::Encoder::new().compress_vec(&payload).unwrap();
    let mut demo = vec![7u8 | 64, 0, compressed.len() as u8];
    demo.extend_from_slice(&compressed);
    let mut ptr = 0usize;
    let f = FrameParser::read_frame(&demo, &mut ptr).unwrap();
    let mut buf = Vec::new();
    assert_eq!(f.get_bytes(&mut buf, &demo).unwrap(), payload.as_slice());
}

#[test]
fn frame_payload_past_the_end_is_malformed() {
    let demo = [7u8, 0, 9, 1];
    let mut ptr = 0usize;
    let f = FrameParser::read_frame(&demo, &mut ptr).unwrap();
    let mut buf = Vec::new();
    assert_eq!(f.get_bytes(&mut buf, &demo), Err(DemoParserError::MalformedMessage));
}

#[test]
fn header_checks() {
    assert_eq!(handle_short_header(&[0u8; 4]), Err(DemoParserError::OutOfBytesError));
    let mut s1 = b"HL2DEMO\0".to_vec();
    s1.extend_from_slice(&[0u8; 8]);
    assert_eq!(handle_short_header(&s1), Err(DemoParserError::Source1DemoError));
    let mut other = b"ABCDEFG\0".to_vec();
    other.extend_from_slice(&[0u8; 8]);
    assert_eq!(handle_short_header(&other), Err(DemoParserError::UnknownFile));
    let mut ok = b"PBDEMS2\0".to_vec();
    ok.extend_from_slice(&[0u8; 8]);
    ok.extend_from_slice(&[0u8; 4]);
    assert_eq!(handle_short_header(&ok), Ok(()));
}

#[test]
fn numbers_parse_as_std_does() {
    assert_eq!(parse_i32("-42"), Some(-42));
    assert_eq!(parse_i32("+7"), Some(7));
    assert_eq!(parse_i32("2147483647"), Some(i32::MAX));
    assert_eq!(parse_i32("-2147483648"), Some(i32::MIN));
    assert_eq!(parse_i32("2147483648"), None);
    assert_eq!(parse_i32(""), None);
    assert_eq!(parse_i32("-"), None);
    assert_eq!(parse_i32("12a"), None);
    assert_eq!(parse_u32("4294967295"), Some(u32::MAX));
    assert_eq!(parse_u32("4294967296"), None);
    assert_eq!(parse_u32("-1"), None);
    assert_eq!(parse_u32("+15"), Some(15));
    for s in ["0", "-0", "+0", "99", "x", "1 ", "00012"] {
        assert_eq!(parse_i32(s), s.parse::<i32>().ok());
        assert_eq!(parse_u32(s), s.parse::<u32>().ok());
    }
}

#[test]
fn varint_encoding_reads_back_after_a_prefix() {
    // 300 is 0xAC 0x02 in seven-bit groups, least significant first.
    let bytes = [9u8, 9, 0xAC, 0x02, 0x7F];
    let mut ptr = 2usize;
    assert_eq!(read_varint(&bytes, &mut ptr), Ok(300));
    assert_eq!(ptr, 4);
    let max = [0xFFu8, 0xFF, 0xFF, 0xFF, 0x0F];
    let mut ptr = 0usize;
    assert_eq!(read_varint(&max, &mut ptr), Ok(u32::MAX));
    assert_eq!(ptr, 5);
}

#[test]
fn field_path_unknown_op_changes_nothing() {
    let bytes = [0xFFu8; 4];
    let mut br = Bitreader::new(&bytes);
    let mut fp = FieldPath { path: [2, 3, 0, 0, 0, 0, 0], last: 1 };
    assert_eq!(fp.do_op(39, &mut br), Err(DemoParserError::UnknownPathOp));
    assert_eq!(fp.path, [2, 3, 0, 0, 0, 0, 0]);
    assert_eq!(fp.last, 1);
    assert_eq!(br.bits_remaining(), Some(32));
}

#[test]
fn field_path_ops_leave_zeros_past_the_last_entry() {
    let mut fp = FieldPath::default();
    fp.push_one_left_delta_one_right_zero().unwrap();
    fp.push_one_left_delta_one_right_zero().unwrap();
    fp.pop_one_plus_one().unwrap();
    assert_eq!(fp.last, 1);
    assert!(fp.path[2..].iter().all(|v| *v == 0));
    fp.pop_all_but_one_plus_one().unwrap();
    assert_eq!(fp.last, 0);
    assert!(fp.path[1..].iter().all(|v| *v == 0));
}

#[test]
fn header_of_a_short_demo_says_how_much_is_missing() {
    let mut short = b"PBDEMS2\0".to_vec();
    short.extend_from_slice(&[100, 0, 0, 0]);
    short.extend_from_slice(&[0u8; 4]);
    assert_eq!(
        handle_short_header(&short),
        Err(DemoParserError::DemoEndsEarly(
            "Demo ends early. Expected length: 118, actual length: 16. Missing: 86.44%".to_string()
        ))
    );
    let mut nearly = b"PBDEMS2\0".to_vec();
    nearly.extend_from_slice(&[0u8; 8]);
    assert_eq!(
        handle_short_header(&nearly),
        Err(DemoParserError::DemoEndsEarly(
            "Demo ends early. Expected length: 18, actual length: 16. Missing: 11.11%".to_string()
        ))
    );
}

#[test]
fn frame_with_unknown_command_leaves_the_position_after_its_varints() {
    let bytes = [0x63u8, 5, 2, 0xAA, 0xBB];
    let mut ptr = 0usize;
    assert_eq!(FrameParser::read_frame(&bytes, &mut ptr), Err(DemoParserError::UnknownDemoCmd(35)));
    assert_eq!(ptr, 3);
    let cut = [7u8, 0x80];
    let mut ptr = 0usize;
    assert_eq!(FrameParser::read_frame(&cut, &mut ptr), Err(DemoParserError::OutOfBytesError));
    assert_eq!(ptr, 2);
}

#[test]
fn field_path_entry_past_the_end_changes_nothing() {
    let mut fp = FieldPath { path: [1, 2, 3, 0, 0, 0, 0], last: 2 };
    assert!(fp.get_entry_mut(7).is_err());
    assert_eq!(fp.path, [1, 2, 3, 0, 0, 0, 0]);
    assert_eq!(fp.last, 2);
}
