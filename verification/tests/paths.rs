use demoparser::bitreader::Bitreader;
use demoparser::error::DemoParserError;
use demoparser::field_path::FieldPath;
use demoparser::paths::{parse_paths, write_fp, HUFFMAN_TABLE_LEN, STOP_READING_SYMBOL};

/// A code where a set first bit stops, `00` is op 0 (plus one) and `01`
/// (second bit set) is op 5 (push a zero entry).
fn small_table(third: u8) -> Vec<(u8, u8)> {
    (0..HUFFMAN_TABLE_LEN)
        .map(|i| if i & 1 == 1 { (STOP_READING_SYMBOL, 1) } else if i & 2 == 0 { (0, 2) } else { (third, 2) })
        .collect()
}

#[test]
fn paths_are_read_until_the_stop_code() {
    // op 5, op 0, stop: bits 0 1, 0 0, 1
    let bytes = [0b1_0010u8];
    let mut br = Bitreader::new(&bytes);
    let mut paths = Vec::new();
    assert_eq!(parse_paths(&mut br, &small_table(5), &mut paths), Ok(2));
    assert_eq!(paths.len(), 2);
    assert_eq!(paths[0].path, [-1, 0, 0, 0, 0, 0, 0]);
    assert_eq!(paths[0].last, 1);
    assert_eq!(paths[1].path, [-1, 1, 0, 0, 0, 0, 0]);
    assert_eq!(paths[1].last, 1);
    assert_eq!(br.bits_remaining(), Some(3));
}

#[test]
fn paths_past_those_read_are_kept() {
    let bytes = [0b100u8];
    let mut br = Bitreader::new(&bytes);
    let old = FieldPath { path: [7, 7, 7, 0, 0, 0, 0], last: 2 };
    let mut paths = vec![old; 4];
    assert_eq!(parse_paths(&mut br, &small_table(5), &mut paths), Ok(1));
    assert_eq!(paths.len(), 4);
    assert_eq!(paths[0].path, [0, 0, 0, 0, 0, 0, 0]);
    assert_eq!(paths[1].path, [7, 7, 7, 0, 0, 0, 0]);
    assert_eq!(paths[3].last, 2);
}

#[test]
fn paths_fail_on_missing_bits_and_unknown_ops() {
    let mut br = Bitreader::new(&[]);
    let mut paths = Vec::new();
    assert_eq!(parse_paths(&mut br, &small_table(5), &mut paths), Err(DemoParserError::OutOfBitsError));
    let bytes = [0b10u8];
    let mut br = Bitreader::new(&bytes);
    assert_eq!(parse_paths(&mut br, &small_table(40), &mut paths), Err(DemoParserError::UnknownPathOp));
}

#[test]
fn writing_a_path_past_the_end_fills_the_gap() {
    let fp = FieldPath { path: [3, 0, 0, 0, 0, 0, 0], last: 0 };
    let mut paths = vec![FieldPath { path: [9, 0, 0, 0, 0, 0, 0], last: 0 }];
    write_fp(&mut paths, fp, 3);
    assert_eq!(paths.len(), 4);
    assert_eq!(paths[0].path[0], 9);
    assert_eq!(paths[1].path, [-1, 0, 0, 0, 0, 0, 0]);
    assert_eq!(paths[3].path[0], 3);
    write_fp(&mut paths, fp, 0);
    assert_eq!(paths[0].path[0], 3);
    assert_eq!(paths.len(), 4);
}
