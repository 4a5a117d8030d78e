use vstd::prelude::*;
use crate::error::DemoParserError;
use crate::bitreader::{Bitreader, spec_ubit_var_fp, spec_u_bit_var, spec_nbits, spec_varint32, spec_flag};

verus! {

/// The state of a field path while it is decoded: its seven entries, the
/// index of its last entry and the bit position in the stream.
pub type FpState = (Seq<i32>, int, int);

/// Carries on with `f` after a step that succeeded.
pub open spec fn and_then(r: Result<FpState, DemoParserError>, f: spec_fn(FpState) -> Result<FpState, DemoParserError>) -> Result<FpState, DemoParserError> {
    match r {
        Ok(s) => f(s),
        Err(e) => Err(e),
    }
}

/// Two's-complement addition of `i32`s, as the entries of a path are added.
pub open spec fn wadd(x: i32, y: i32) -> i32 {
    vstd::wrapping::i32_specs::wrapping_add(x, y)
}

/// Adds `x` to entry `i`; an index past the seventh entry is an illegal op.
pub open spec fn st_add(s: FpState, i: int, x: i32) -> Result<FpState, DemoParserError> {
    if 0 <= i < 7 {
        Ok((s.0.update(i, wadd(s.0[i], x)), s.1, s.2))
    } else {
        Err(DemoParserError::IllegalPathOp)
    }
}

/// Sets entry `i` to `x`; an index past the seventh entry is an illegal op.
pub open spec fn st_set(s: FpState, i: int, x: i32) -> Result<FpState, DemoParserError> {
    if 0 <= i < 7 {
        Ok((s.0.update(i, x), s.1, s.2))
    } else {
        Err(DemoParserError::IllegalPathOp)
    }
}

/// Moves the last index one entry on.
pub open spec fn st_push(s: FpState) -> FpState {
    (s.0, s.1 + 1, s.2)
}

/// A number read from the stream at the state's position, and the state
/// after it.
pub open spec fn st_read(r: Result<(u32, int), DemoParserError>, s: FpState) -> Result<(u32, FpState), DemoParserError> {
    match r {
        Ok((v, end)) => Ok((v, (s.0, s.1, end))),
        Err(e) => Err(e),
    }
}

/// Which number a step reads.
#[derive(Clone, Copy)]
pub enum Reading {
    /// The field-path number of `spec_ubit_var_fp`.
    Fp,
    /// The number of `spec_u_bit_var`.
    UBitVar,
    /// A number of the given width.
    Bits(nat),
}

/// Reads the number a step asks for.
pub open spec fn st_read_kind(d: Seq<u8>, s: FpState, k: Reading) -> Result<(u32, FpState), DemoParserError> {
    match k {
        Reading::Fp => st_read(spec_ubit_var_fp(d, s.2), s),
        Reading::UBitVar => st_read(spec_u_bit_var(d, s.2), s),
        Reading::Bits(n) => st_read(spec_nbits(d, s.2, n), s),
    }
}

/// Reads a number, then adds it plus `off` to the last entry.
pub open spec fn add_read(d: Seq<u8>, s: FpState, k: Reading, off: i32) -> Result<FpState, DemoParserError> {
    match st_read_kind(d, s, k) {
        Ok((v, s1)) => st_add(s1, s1.1, wadd(v as i32, off)),
        Err(e) => Err(e),
    }
}

/// Reads a number, then sets the last entry to it plus `off`.
pub open spec fn set_read(d: Seq<u8>, s: FpState, k: Reading, off: i32) -> Result<FpState, DemoParserError> {
    match st_read_kind(d, s, k) {
        Ok((v, s1)) => st_set(s1, s1.1, wadd(v as i32, off)),
        Err(e) => Err(e),
    }
}

/// `n` times: move the last index on and add a read number to that entry.
pub open spec fn push_add_n(d: Seq<u8>, s: FpState, k: Reading, n: nat) -> Result<FpState, DemoParserError>
    decreases n,
{
    if n == 0 {
        Ok(s)
    } else {
        and_then(add_read(d, st_push(s), k, 0), |s1: FpState| push_add_n(d, s1, k, (n - 1) as nat))
    }
}

/// `n` times: move the last index on and set that entry to a read number.
pub open spec fn push_set_n(d: Seq<u8>, s: FpState, k: Reading, n: nat) -> Result<FpState, DemoParserError>
    decreases n,
{
    if n == 0 {
        Ok(s)
    } else {
        and_then(set_read(d, st_push(s), k, 0), |s1: FpState| push_set_n(d, s1, k, (n - 1) as nat))
    }
}

/// What a flagged entry gets added in the non-topological ops.
#[derive(Clone, Copy)]
pub enum Delta {
    /// A signed varint, plus one.
    ZigPlusOne,
    /// A signed varint.
    Zig,
    /// Four bits, less seven.
    Bits4MinusSeven,
}

/// Reads the amount of a `Delta`.
pub open spec fn read_delta(d: Seq<u8>, s: FpState, k: Delta) -> Result<(i32, FpState), DemoParserError> {
    match k {
        Delta::ZigPlusOne => match spec_varint32(d, s.2) {
            Ok((v, end)) => Ok((wadd(v, 1), (s.0, s.1, end))),
            Err(e) => Err(e),
        },
        Delta::Zig => match spec_varint32(d, s.2) {
            Ok((v, end)) => Ok((v, (s.0, s.1, end))),
            Err(e) => Err(e),
        },
        Delta::Bits4MinusSeven => match spec_nbits(d, s.2, 4) {
            Ok((v, end)) => Ok((((v as i32) - 7) as i32, (s.0, s.1, end))),
            Err(e) => Err(e),
        },
    }
}

/// For each entry `i` from `i` up to `hi`: read a flag, and when it is set
/// read an amount and add it to entry `i`.
pub open spec fn non_topo(d: Seq<u8>, s: FpState, i: int, hi: int, k: Delta) -> Result<FpState, DemoParserError>
    decreases hi + 1 - i,
{
    if i > hi {
        Ok(s)
    } else {
        match spec_flag(d, s.2) {
            Err(e) => Err(e),
            Ok((flag, p1)) => {
                let s1 = (s.0, s.1, p1);
                if flag {
                    match read_delta(d, s1, k) {
                        Err(e) => Err(e),
                        Ok((x, s2)) => and_then(st_add(s2, i, x), |s3: FpState| non_topo(d, s3, i + 1, hi, k)),
                    }
                } else {
                    non_topo(d, s1, i + 1, hi, k)
                }
            },
        }
    }
}

/// Drops the last `n` entries, zeroing them. Dropping more entries than
/// there are below the last one is an illegal op.
pub open spec fn st_pop(s: FpState, n: int) -> Result<FpState, DemoParserError> {
    if n < 0 || n > s.1 {
        Err(DemoParserError::IllegalPathOp)
    } else {
        Ok((Seq::new(s.0.len(), |j: int| if s.1 - n < j <= s.1 { 0i32 } else { s.0[j] }), s.1 - n, s.2))
    }
}

/// Drops a read number of entries.
pub open spec fn pop_read(d: Seq<u8>, s: FpState) -> Result<FpState, DemoParserError> {
    match st_read_kind(d, s, Reading::Fp) {
        Ok((n, s1)) => st_pop(s1, n as int),
        Err(e) => Err(e),
    }
}

/// Field-path op 0.
pub open spec fn spec_plus_one(d: Seq<u8>, s: FpState) -> Result<FpState, DemoParserError> {
    st_add(s, s.1, 1)
}

/// Field-path op 1.
pub open spec fn spec_plus_two(d: Seq<u8>, s: FpState) -> Result<FpState, DemoParserError> {
    st_add(s, s.1, 2)
}

/// Field-path op 2.
pub open spec fn spec_plus_three(d: Seq<u8>, s: FpState) -> Result<FpState, DemoParserError> {
    st_add(s, s.1, 3)
}

/// Field-path op 3.
pub open spec fn spec_plus_four(d: Seq<u8>, s: FpState) -> Result<FpState, DemoParserError> {
    st_add(s, s.1, 4)
}

/// Field-path op 4.
pub open spec fn spec_plus_n(d: Seq<u8>, s: FpState) -> Result<FpState, DemoParserError> {
    let fp = Reading::Fp;
    add_read(d, s, fp, 5)
}

/// Field-path op 5.
pub open spec fn spec_push_one_left_delta_zero_right_zero(d: Seq<u8>, s: FpState) -> Result<FpState, DemoParserError> {
    let s1 = st_push(s);
    st_set(s1, s1.1, 0)
}

/// Field-path op 6.
pub open spec fn spec_push_one_left_delta_zero_right_non_zero(d: Seq<u8>, s: FpState) -> Result<FpState, DemoParserError> {
    let fp = Reading::Fp;
    add_read(d, st_push(s), fp, 0)
}

/// Field-path op 7.
pub open spec fn spec_push_one_left_delta_one_right_zero(d: Seq<u8>, s: FpState) -> Result<FpState, DemoParserError> {
    and_then(st_add(s, s.1, 1), |s1: FpState| { let s2 = st_push(s1); st_set(s2, s2.1, 0) })
}

/// Field-path op 8.
pub open spec fn spec_push_one_left_delta_one_right_non_zero(d: Seq<u8>, s: FpState) -> Result<FpState, DemoParserError> {
    let fp = Reading::Fp;
    and_then(st_add(s, s.1, 1), |s1: FpState| set_read(d, st_push(s1), fp, 0))
}

/// Field-path op 9.
pub open spec fn spec_push_one_left_delta_n_right_zero(d: Seq<u8>, s: FpState) -> Result<FpState, DemoParserError> {
    let fp = Reading::Fp;
    and_then(add_read(d, s, fp, 0), |s1: FpState| { let s2 = st_push(s1); st_set(s2, s2.1, 0) })
}

/// Field-path op 10.
pub open spec fn spec_push_one_left_delta_n_right_non_zero(d: Seq<u8>, s: FpState) -> Result<FpState, DemoParserError> {
    let fp = Reading::Fp;
    and_then(add_read(d, s, fp, 2), |s1: FpState| set_read(d, st_push(s1), fp, 1))
}

/// Field-path op 11.
pub open spec fn spec_push_one_left_delta_n_right_non_zero_pack6_bits(d: Seq<u8>, s: FpState) -> Result<FpState, DemoParserError> {
    and_then(add_read(d, s, Reading::Bits(3), 2), |s1: FpState| set_read(d, st_push(s1), Reading::Bits(3), 1))
}

/// Field-path op 12.
pub open spec fn spec_push_one_left_delta_n_right_non_zero_pack8_bits(d: Seq<u8>, s: FpState) -> Result<FpState, DemoParserError> {
    and_then(add_read(d, s, Reading::Bits(4), 2), |s1: FpState| set_read(d, st_push(s1), Reading::Bits(4), 1))
}

/// Field-path op 13.
pub open spec fn spec_push_two_left_delta_zero(d: Seq<u8>, s: FpState) -> Result<FpState, DemoParserError> {
    let fp = Reading::Fp;
    push_add_n(d, s, fp, 2)
}

/// Field-path op 14.
pub open spec fn spec_push_two_pack5_left_delta_zero(d: Seq<u8>, s: FpState) -> Result<FpState, DemoParserError> {
    let b5 = Reading::Bits(5);
    push_set_n(d, s, b5, 2)
}

/// Field-path op 15.
pub open spec fn spec_push_three_left_delta_zero(d: Seq<u8>, s: FpState) -> Result<FpState, DemoParserError> {
    let fp = Reading::Fp;
    push_add_n(d, s, fp, 3)
}

/// Field-path op 16.
pub open spec fn spec_push_three_pack5_left_delta_zero(d: Seq<u8>, s: FpState) -> Result<FpState, DemoParserError> {
    let b5 = Reading::Bits(5);
    push_set_n(d, s, b5, 3)
}

/// Field-path op 17.
pub open spec fn spec_push_two_left_delta_one(d: Seq<u8>, s: FpState) -> Result<FpState, DemoParserError> {
    let fp = Reading::Fp;
    and_then(st_add(s, s.1, 1), |s1: FpState| push_add_n(d, s1, fp, 2))
}

/// Field-path op 18.
pub open spec fn spec_push_two_pack5_left_delta_one(d: Seq<u8>, s: FpState) -> Result<FpState, DemoParserError> {
    let b5 = Reading::Bits(5);
    and_then(st_add(s, s.1, 1), |s1: FpState| push_add_n(d, s1, b5, 2))
}

/// Field-path op 19.
pub open spec fn spec_push_three_left_delta_one(d: Seq<u8>, s: FpState) -> Result<FpState, DemoParserError> {
    let fp = Reading::Fp;
    and_then(st_add(s, s.1, 1), |s1: FpState| push_add_n(d, s1, fp, 3))
}

/// Field-path op 20.
pub open spec fn spec_push_three_pack5_left_delta_one(d: Seq<u8>, s: FpState) -> Result<FpState, DemoParserError> {
    let b5 = Reading::Bits(5);
    and_then(st_add(s, s.1, 1), |s1: FpState| push_add_n(d, s1, b5, 3))
}

/// Field-path op 21.
pub open spec fn spec_push_two_left_delta_n(d: Seq<u8>, s: FpState) -> Result<FpState, DemoParserError> {
    let fp = Reading::Fp;
    let ubv = Reading::UBitVar;
    and_then(add_read(d, s, ubv, 2), |s1: FpState| push_add_n(d, s1, fp, 2))
}

/// Field-path op 22.
pub open spec fn spec_push_two_pack5_left_delta_n(d: Seq<u8>, s: FpState) -> Result<FpState, DemoParserError> {
    let ubv = Reading::UBitVar;
    let b5 = Reading::Bits(5);
    and_then(add_read(d, s, ubv, 2), |s1: FpState| push_add_n(d, s1, b5, 2))
}

/// Field-path op 23.
pub open spec fn spec_push_three_left_delta_n(d: Seq<u8>, s: FpState) -> Result<FpState, DemoParserError> {
    let fp = Reading::Fp;
    let ubv = Reading::UBitVar;
    and_then(add_read(d, s, ubv, 2), |s1: FpState| push_add_n(d, s1, fp, 3))
}

/// Field-path op 24.
pub open spec fn spec_push_three_pack5_left_delta_n(d: Seq<u8>, s: FpState) -> Result<FpState, DemoParserError> {
    let ubv = Reading::UBitVar;
    let b5 = Reading::Bits(5);
    and_then(add_read(d, s, ubv, 2), |s1: FpState| push_add_n(d, s1, b5, 3))
}

/// Field-path op 25.
pub open spec fn spec_push_n(d: Seq<u8>, s: FpState) -> Result<FpState, DemoParserError> {
    let fp = Reading::Fp;
    let ubv = Reading::UBitVar;
    match st_read_kind(d, s, ubv) {
        Err(e) => Err(e),
        Ok((n, s1)) => and_then(add_read(d, s1, ubv, 0), |s2: FpState|
            push_add_n(d, s2, fp, if (n as i32) < 0 { 0 } else { (n as i32) as nat })),
    }
}

/// Field-path op 26.
pub open spec fn spec_push_n_and_non_topological(d: Seq<u8>, s: FpState) -> Result<FpState, DemoParserError> {
    let fp = Reading::Fp;
    let ubv = Reading::UBitVar;
    and_then(non_topo(d, s, 0, s.1, Delta::ZigPlusOne), |s1: FpState|
        match st_read_kind(d, s1, ubv) {
            Err(e) => Err(e),
            Ok((count, s2)) => push_set_n(d, s2, fp, count as nat),
        })
}

/// Field-path op 27.
pub open spec fn spec_pop_one_plus_one(d: Seq<u8>, s: FpState) -> Result<FpState, DemoParserError> {
    and_then(st_pop(s, 1), |s1: FpState| st_add(s1, s1.1, 1))
}

/// Field-path op 28.
pub open spec fn spec_pop_one_plus_n(d: Seq<u8>, s: FpState) -> Result<FpState, DemoParserError> {
    let fp = Reading::Fp;
    and_then(st_pop(s, 1), |s1: FpState| add_read(d, s1, fp, 1))
}

/// Field-path op 29.
pub open spec fn spec_pop_all_but_one_plus_one(d: Seq<u8>, s: FpState) -> Result<FpState, DemoParserError> {
    and_then(st_pop(s, s.1), |s1: FpState| st_add(s1, 0, 1))
}

/// Field-path op 30.
pub open spec fn spec_pop_all_but_one_plus_n(d: Seq<u8>, s: FpState) -> Result<FpState, DemoParserError> {
    let fp = Reading::Fp;
    and_then(st_pop(s, s.1), |s1: FpState| match st_read_kind(d, s1, fp) {
        Ok((v, s2)) => st_add(s2, 0, wadd(v as i32, 1)),
        Err(e) => Err(e),
    })
}

/// Field-path op 31.
pub open spec fn spec_pop_all_but_one_plus_n_pack3_bits(d: Seq<u8>, s: FpState) -> Result<FpState, DemoParserError> {
    and_then(st_pop(s, s.1), |s1: FpState| match st_read_kind(d, s1, Reading::Bits(3)) {
        Ok((v, s2)) => st_add(s2, 0, wadd(v as i32, 1)),
        Err(e) => Err(e),
    })
}

/// Field-path op 32.
pub open spec fn spec_pop_all_but_one_plus_n_pack6_bits(d: Seq<u8>, s: FpState) -> Result<FpState, DemoParserError> {
    and_then(st_pop(s, s.1), |s1: FpState| match st_read_kind(d, s1, Reading::Bits(6)) {
        Ok((v, s2)) => st_add(s2, 0, wadd(v as i32, 1)),
        Err(e) => Err(e),
    })
}

/// Field-path op 33.
pub open spec fn spec_pop_n_plus_one(d: Seq<u8>, s: FpState) -> Result<FpState, DemoParserError> {
    and_then(pop_read(d, s), |s1: FpState| st_add(s1, s1.1, 1))
}

/// Field-path op 34.
pub open spec fn spec_pop_n_plus_n(d: Seq<u8>, s: FpState) -> Result<FpState, DemoParserError> {
    and_then(pop_read(d, s), |s1: FpState| match read_delta(d, s1, Delta::Zig) {
        Ok((x, s2)) => st_add(s2, s2.1, x),
        Err(e) => Err(e),
    })
}

/// Field-path op 35.
pub open spec fn spec_pop_n_and_non_topographical(d: Seq<u8>, s: FpState) -> Result<FpState, DemoParserError> {
    and_then(pop_read(d, s), |s1: FpState| non_topo(d, s1, 0, s1.1, Delta::Zig))
}

/// Field-path op 36.
pub open spec fn spec_non_topo_complex(d: Seq<u8>, s: FpState) -> Result<FpState, DemoParserError> {
    non_topo(d, s, 0, s.1, Delta::Zig)
}

/// Field-path op 37.
pub open spec fn spec_non_topo_penultimate_plus_one(d: Seq<u8>, s: FpState) -> Result<FpState, DemoParserError> {
    if s.1 == 0 {
        Err(DemoParserError::IllegalPathOp)
    } else {
        st_add(s, s.1 - 1, 1)
    }
}

/// Field-path op 38.
pub open spec fn spec_non_topo_complex_pack4_bits(d: Seq<u8>, s: FpState) -> Result<FpState, DemoParserError> {
    non_topo(d, s, 0, s.1, Delta::Bits4MinusSeven)
}

/// The effect of field-path op `opcode` on state `s`, reading from `d`.
pub open spec fn spec_do_op(opcode: u8, d: Seq<u8>, s: FpState) -> Result<FpState, DemoParserError> {
    if opcode == 0 {
        spec_plus_one(d, s)
    } else if opcode == 1 {
        spec_plus_two(d, s)
    } else if opcode == 2 {
        spec_plus_three(d, s)
    } else if opcode == 3 {
        spec_plus_four(d, s)
    } else if opcode == 4 {
        spec_plus_n(d, s)
    } else if opcode == 5 {
        spec_push_one_left_delta_zero_right_zero(d, s)
    } else if opcode == 6 {
        spec_push_one_left_delta_zero_right_non_zero(d, s)
    } else if opcode == 7 {
        spec_push_one_left_delta_one_right_zero(d, s)
    } else if opcode == 8 {
        spec_push_one_left_delta_one_right_non_zero(d, s)
    } else if opcode == 9 {
        spec_push_one_left_delta_n_right_zero(d, s)
    } else if opcode == 10 {
        spec_push_one_left_delta_n_right_non_zero(d, s)
    } else if opcode == 11 {
        spec_push_one_left_delta_n_right_non_zero_pack6_bits(d, s)
    } else if opcode == 12 {
        spec_push_one_left_delta_n_right_non_zero_pack8_bits(d, s)
    } else if opcode == 13 {
        spec_push_two_left_delta_zero(d, s)
    } else if opcode == 14 {
        spec_push_two_pack5_left_delta_zero(d, s)
    } else if opcode == 15 {
        spec_push_three_left_delta_zero(d, s)
    } else if opcode == 16 {
        spec_push_three_pack5_left_delta_zero(d, s)
    } else if opcode == 17 {
        spec_push_two_left_delta_one(d, s)
    } else if opcode == 18 {
        spec_push_two_pack5_left_delta_one(d, s)
    } else if opcode == 19 {
        spec_push_three_left_delta_one(d, s)
    } else if opcode == 20 {
        spec_push_three_pack5_left_delta_one(d, s)
    } else if opcode == 21 {
        spec_push_two_left_delta_n(d, s)
    } else if opcode == 22 {
        spec_push_two_pack5_left_delta_n(d, s)
    } else if opcode == 23 {
        spec_push_three_left_delta_n(d, s)
    } else if opcode == 24 {
        spec_push_three_pack5_left_delta_n(d, s)
    } else if opcode == 25 {
        spec_push_n(d, s)
    } else if opcode == 26 {
        spec_push_n_and_non_topological(d, s)
    } else if opcode == 27 {
        spec_pop_one_plus_one(d, s)
    } else if opcode == 28 {
        spec_pop_one_plus_n(d, s)
    } else if opcode == 29 {
        spec_pop_all_but_one_plus_one(d, s)
    } else if opcode == 30 {
        spec_pop_all_but_one_plus_n(d, s)
    } else if opcode == 31 {
        spec_pop_all_but_one_plus_n_pack3_bits(d, s)
    } else if opcode == 32 {
        spec_pop_all_but_one_plus_n_pack6_bits(d, s)
    } else if opcode == 33 {
        spec_pop_n_plus_one(d, s)
    } else if opcode == 34 {
        spec_pop_n_plus_n(d, s)
    } else if opcode == 35 {
        spec_pop_n_and_non_topographical(d, s)
    } else if opcode == 36 {
        spec_non_topo_complex(d, s)
    } else if opcode == 37 {
        spec_non_topo_penultimate_plus_one(d, s)
    } else if opcode == 38 {
        spec_non_topo_complex_pack4_bits(d, s)
    } else {
        Err(DemoParserError::UnknownPathOp)
    }
}

/// A path through nested fields: up to seven indices, of which entries
/// `0..=last` are in use.
#[derive(Clone, Copy, Debug)]
pub struct FieldPath {
    pub path: [i32; 7],
    pub last: usize,
}

impl FieldPath {
    /// The state of this path with the stream at bit `pos`.
    pub open spec fn st(&self, pos: int) -> FpState {
        (self.path@, self.last as int, pos)
    }

    /// The last index lies within the path.
    pub open spec fn wf(&self) -> bool {
        self.last < 7
    }
}

/// What an op did to a path and a reader: the stream is unchanged and well
/// formed, and on success path and position are those of `s`, on failure
/// the error is that of `s`.
pub open spec fn op_outcome<'a>(fp: FieldPath, br_before: Bitreader<'a>, br: Bitreader<'a>, res: Result<(), DemoParserError>, s: Result<FpState, DemoParserError>) -> bool {
    &&& br.wf()
    &&& br.data() == br_before.data()
    &&& match s {
        Ok(st) => res is Ok && fp.st(br.pos()) == st && fp.wf(),
        Err(e) => res == Err::<(), DemoParserError>(e),
    }
}


impl Default for FieldPath {
    /// The empty path `[-1, 0, 0, 0, 0, 0, 0]` with its last index at 0.
    fn default() -> (fp: FieldPath)
        ensures
            fp.path@ == seq![-1i32, 0, 0, 0, 0, 0, 0],
            fp.last == 0,
    {
        let fp = FieldPath { path: [-1, 0, 0, 0, 0, 0, 0], last: 0 };
        assert(fp.path@ =~= seq![-1i32, 0, 0, 0, 0, 0, 0]);
        fp
    }
}

impl FieldPath {
    /// Adds `x` to entry `idx`, wrapping around on overflow.
    fn add_entry(&mut self, idx: usize, x: i32) -> (res: Result<(), DemoParserError>)
        ensures
            final(self).last == old(self).last,
            idx < 7 ==> res is Ok && final(self).path@ == old(self).path@.update(idx as int, wadd(old(self).path@[idx as int], x)),
            idx >= 7 ==> res == Err::<(), DemoParserError>(DemoParserError::IllegalPathOp) && final(self).path@ == old(self).path@,
    {
        if idx >= 7 {
            return Err(DemoParserError::IllegalPathOp);
        }
        self.path[idx] = self.path[idx].wrapping_add(x);
        Ok(())
    }

    /// Sets entry `idx` to `x`.
    fn set_entry(&mut self, idx: usize, x: i32) -> (res: Result<(), DemoParserError>)
        ensures
            final(self).last == old(self).last,
            idx < 7 ==> res is Ok && final(self).path@ == old(self).path@.update(idx as int, x),
            idx >= 7 ==> res == Err::<(), DemoParserError>(DemoParserError::IllegalPathOp) && final(self).path@ == old(self).path@,
    {
        if idx >= 7 {
            return Err(DemoParserError::IllegalPathOp);
        }
        self.path[idx] = x;
        Ok(())
    }

    /// Drops the last `n` entries, setting them to zero. Dropping more
    /// entries than lie below the last one is an illegal op.
    pub fn pop_special(&mut self, n: usize) -> (res: Result<(), DemoParserError>)
        requires
            old(self).wf(),
        ensures
            match st_pop(old(self).st(0), n as int) {
                Ok(s) => res is Ok && final(self).path@ == s.0 && final(self).last == s.1 && final(self).wf(),
                Err(e) => res == Err::<(), DemoParserError>(e),
            },
    {
        if n > self.last {
            return Err(DemoParserError::IllegalPathOp);
        }
        let ghost p0 = self.path@;
        let ghost l0 = self.last as int;
        let mut k: usize = 0;
        while k < n
            invariant
                k <= n,
                n <= l0,
                l0 < 7,
                self.last == l0 - k,
                self.path@ == Seq::new(7, |j: int| if l0 - k < j <= l0 { 0i32 } else { p0[j] }),
            decreases n - k,
        {
            let l = self.last;
            self.path[l] = 0;
            self.last = l - 1;
            k += 1;
            assert(self.path@ =~= Seq::new(7, |j: int| if l0 - k < j <= l0 { 0i32 } else { p0[j] }));
        }
        assert(p0.len() == 7);
        Ok(())
    }
}


impl FieldPath {
    pub fn plus_one(&mut self) -> (res: Result<(), DemoParserError>)
        requires
            old(self).wf(),
        ensures
            forall|d: Seq<u8>, p: int| match #[trigger] spec_plus_one(d, old(self).st(p)) {
                Ok(st) => res is Ok && final(self).st(p) == st && final(self).wf(),
                Err(e) => res == Err::<(), DemoParserError>(e),
            },
    {
        self.add_entry(self.last, 1)
    }

    pub fn plus_two(&mut self) -> (res: Result<(), DemoParserError>)
        requires
            old(self).wf(),
        ensures
            forall|d: Seq<u8>, p: int| match #[trigger] spec_plus_two(d, old(self).st(p)) {
                Ok(st) => res is Ok && final(self).st(p) == st && final(self).wf(),
                Err(e) => res == Err::<(), DemoParserError>(e),
            },
    {
        self.add_entry(self.last, 2)
    }

    pub fn plus_three(&mut self) -> (res: Result<(), DemoParserError>)
        requires
            old(self).wf(),
        ensures
            forall|d: Seq<u8>, p: int| match #[trigger] spec_plus_three(d, old(self).st(p)) {
                Ok(st) => res is Ok && final(self).st(p) == st && final(self).wf(),
                Err(e) => res == Err::<(), DemoParserError>(e),
            },
    {
        self.add_entry(self.last, 3)
    }

    pub fn plus_four(&mut self) -> (res: Result<(), DemoParserError>)
        requires
            old(self).wf(),
        ensures
            forall|d: Seq<u8>, p: int| match #[trigger] spec_plus_four(d, old(self).st(p)) {
                Ok(st) => res is Ok && final(self).st(p) == st && final(self).wf(),
                Err(e) => res == Err::<(), DemoParserError>(e),
            },
    {
        self.add_entry(self.last, 4)
    }

    pub fn push_one_left_delta_zero_right_zero(&mut self) -> (res: Result<(), DemoParserError>)
        requires
            old(self).wf(),
        ensures
            forall|d: Seq<u8>, p: int| match #[trigger] spec_push_one_left_delta_zero_right_zero(d, old(self).st(p)) {
                Ok(st) => res is Ok && final(self).st(p) == st && final(self).wf(),
                Err(e) => res == Err::<(), DemoParserError>(e),
            },
    {
        self.last = self.last + 1;
        self.set_entry(self.last, 0)
    }

    pub fn push_one_left_delta_one_right_zero(&mut self) -> (res: Result<(), DemoParserError>)
        requires
            old(self).wf(),
        ensures
            forall|d: Seq<u8>, p: int| match #[trigger] spec_push_one_left_delta_one_right_zero(d, old(self).st(p)) {
                Ok(st) => res is Ok && final(self).st(p) == st && final(self).wf(),
                Err(e) => res == Err::<(), DemoParserError>(e),
            },
    {
        self.add_entry(self.last, 1)?;
        self.last = self.last + 1;
        self.set_entry(self.last, 0)
    }

    pub fn pop_one_plus_one(&mut self) -> (res: Result<(), DemoParserError>)
        requires
            old(self).wf(),
        ensures
            forall|d: Seq<u8>, p: int| match #[trigger] spec_pop_one_plus_one(d, old(self).st(p)) {
                Ok(st) => res is Ok && final(self).st(p) == st && final(self).wf(),
                Err(e) => res == Err::<(), DemoParserError>(e),
            },
    {
        self.pop_special(1)?;
        self.add_entry(self.last, 1)
    }

    pub fn pop_all_but_one_plus_one(&mut self) -> (res: Result<(), DemoParserError>)
        requires
            old(self).wf(),
        ensures
            forall|d: Seq<u8>, p: int| match #[trigger] spec_pop_all_but_one_plus_one(d, old(self).st(p)) {
                Ok(st) => res is Ok && final(self).st(p) == st && final(self).wf(),
                Err(e) => res == Err::<(), DemoParserError>(e),
            },
    {
        self.pop_special(self.last)?;
        self.add_entry(0, 1)
    }

    pub fn non_topo_penultimate_plus_one(&mut self) -> (res: Result<(), DemoParserError>)
        requires
            old(self).wf(),
        ensures
            forall|d: Seq<u8>, p: int| match #[trigger] spec_non_topo_penultimate_plus_one(d, old(self).st(p)) {
                Ok(st) => res is Ok && final(self).st(p) == st && final(self).wf(),
                Err(e) => res == Err::<(), DemoParserError>(e),
            },
    {
        if self.last == 0 {
            return Err(DemoParserError::IllegalPathOp);
        }
        self.add_entry(self.last - 1, 1)
    }

    fn plus_n(&mut self, br: &mut Bitreader) -> (res: Result<(), DemoParserError>)
        requires
            old(self).wf(),
            old(br).wf(),
        ensures
            op_outcome(*final(self), *old(br), *final(br), res, spec_plus_n(old(br).data(), old(self).st(old(br).pos()))),
    {
        let v = br.read_ubit_var_fp()?;
        self.add_entry(self.last, (v as i32).wrapping_add(5))?;
        Ok(())
    }

    fn push_one_left_delta_zero_right_non_zero(&mut self, br: &mut Bitreader) -> (res: Result<(), DemoParserError>)
        requires
            old(self).wf(),
            old(br).wf(),
        ensures
            op_outcome(*final(self), *old(br), *final(br), res, spec_push_one_left_delta_zero_right_non_zero(old(br).data(), old(self).st(old(br).pos()))),
    {
        self.last = self.last + 1;
        let v = br.read_ubit_var_fp()?;
        self.add_entry(self.last, v as i32)?;
        Ok(())
    }

    fn push_one_left_delta_one_right_non_zero(&mut self, br: &mut Bitreader) -> (res: Result<(), DemoParserError>)
        requires
            old(self).wf(),
            old(br).wf(),
        ensures
            op_outcome(*final(self), *old(br), *final(br), res, spec_push_one_left_delta_one_right_non_zero(old(br).data(), old(self).st(old(br).pos()))),
    {
        self.add_entry(self.last, 1)?;
        self.last = self.last + 1;
        let v = br.read_ubit_var_fp()?;
        self.set_entry(self.last, v as i32)?;
        Ok(())
    }

    fn push_one_left_delta_n_right_zero(&mut self, br: &mut Bitreader) -> (res: Result<(), DemoParserError>)
        requires
            old(self).wf(),
            old(br).wf(),
        ensures
            op_outcome(*final(self), *old(br), *final(br), res, spec_push_one_left_delta_n_right_zero(old(br).data(), old(self).st(old(br).pos()))),
    {
        let v = br.read_ubit_var_fp()?;
        self.add_entry(self.last, v as i32)?;
        self.last = self.last + 1;
        self.set_entry(self.last, 0)?;
        Ok(())
    }

    fn push_one_left_delta_n_right_non_zero(&mut self, br: &mut Bitreader) -> (res: Result<(), DemoParserError>)
        requires
            old(self).wf(),
            old(br).wf(),
        ensures
            op_outcome(*final(self), *old(br), *final(br), res, spec_push_one_left_delta_n_right_non_zero(old(br).data(), old(self).st(old(br).pos()))),
    {
        let v = br.read_ubit_var_fp()?;
        self.add_entry(self.last, (v as i32).wrapping_add(2))?;
        self.last = self.last + 1;
        let v = br.read_ubit_var_fp()?;
        self.set_entry(self.last, (v as i32).wrapping_add(1))?;
        Ok(())
    }

    fn push_one_left_delta_n_right_non_zero_pack6_bits(&mut self, br: &mut Bitreader) -> (res: Result<(), DemoParserError>)
        requires
            old(self).wf(),
            old(br).wf(),
        ensures
            op_outcome(*final(self), *old(br), *final(br), res, spec_push_one_left_delta_n_right_non_zero_pack6_bits(old(br).data(), old(self).st(old(br).pos()))),
    {
        let v = br.read_bits_checked(3)?;
        self.add_entry(self.last, (v as i32).wrapping_add(2))?;
        self.last = self.last + 1;
        let v = br.read_bits_checked(3)?;
        self.set_entry(self.last, (v as i32).wrapping_add(1))?;
        Ok(())
    }

    fn push_one_left_delta_n_right_non_zero_pack8_bits(&mut self, br: &mut Bitreader) -> (res: Result<(), DemoParserError>)
        requires
            old(self).wf(),
            old(br).wf(),
        ensures
            op_outcome(*final(self), *old(br), *final(br), res, spec_push_one_left_delta_n_right_non_zero_pack8_bits(old(br).data(), old(self).st(old(br).pos()))),
    {
        let v = br.read_bits_checked(4)?;
        self.add_entry(self.last, (v as i32).wrapping_add(2))?;
        self.last = self.last + 1;
        let v = br.read_bits_checked(4)?;
        self.set_entry(self.last, (v as i32).wrapping_add(1))?;
        Ok(())
    }

    fn push_two_left_delta_zero(&mut self, br: &mut Bitreader) -> (res: Result<(), DemoParserError>)
        requires
            old(self).wf(),
            old(br).wf(),
        ensures
            op_outcome(*final(self), *old(br), *final(br), res, spec_push_two_left_delta_zero(old(br).data(), old(self).st(old(br).pos()))),
    {
        proof {
            reveal_with_fuel(push_add_n, 4);
        }
        self.last = self.last + 1;
        let v = br.read_ubit_var_fp()?;
        self.add_entry(self.last, v as i32)?;
        self.last = self.last + 1;
        let v = br.read_ubit_var_fp()?;
        self.add_entry(self.last, v as i32)?;
        Ok(())
    }

    fn push_two_pack5_left_delta_zero(&mut self, br: &mut Bitreader) -> (res: Result<(), DemoParserError>)
        requires
            old(self).wf(),
            old(br).wf(),
        ensures
            op_outcome(*final(self), *old(br), *final(br), res, spec_push_two_pack5_left_delta_zero(old(br).data(), old(self).st(old(br).pos()))),
    {
        proof {
            reveal_with_fuel(push_set_n, 4);
        }
        self.last = self.last + 1;
        let v = br.read_bits_checked(5)?;
        self.set_entry(self.last, v as i32)?;
        self.last = self.last + 1;
        let v = br.read_bits_checked(5)?;
        self.set_entry(self.last, v as i32)?;
        Ok(())
    }

    fn push_three_left_delta_zero(&mut self, br: &mut Bitreader) -> (res: Result<(), DemoParserError>)
        requires
            old(self).wf(),
            old(br).wf(),
        ensures
            op_outcome(*final(self), *old(br), *final(br), res, spec_push_three_left_delta_zero(old(br).data(), old(self).st(old(br).pos()))),
    {
        proof {
            reveal_with_fuel(push_add_n, 4);
        }
        self.last = self.last + 1;
        let v = br.read_ubit_var_fp()?;
        self.add_entry(self.last, v as i32)?;
        self.last = self.last + 1;
        let v = br.read_ubit_var_fp()?;
        self.add_entry(self.last, v as i32)?;
        self.last = self.last + 1;
        let v = br.read_ubit_var_fp()?;
        self.add_entry(self.last, v as i32)?;
        Ok(())
    }

    fn push_three_pack5_left_delta_zero(&mut self, br: &mut Bitreader) -> (res: Result<(), DemoParserError>)
        requires
            old(self).wf(),
            old(br).wf(),
        ensures
            op_outcome(*final(self), *old(br), *final(br), res, spec_push_three_pack5_left_delta_zero(old(br).data(), old(self).st(old(br).pos()))),
    {
        proof {
            reveal_with_fuel(push_set_n, 4);
        }
        self.last = self.last + 1;
        let v = br.read_bits_checked(5)?;
        self.set_entry(self.last, v as i32)?;
        self.last = self.last + 1;
        let v = br.read_bits_checked(5)?;
        self.set_entry(self.last, v as i32)?;
        self.last = self.last + 1;
        let v = br.read_bits_checked(5)?;
        self.set_entry(self.last, v as i32)?;
        Ok(())
    }

    fn push_two_left_delta_one(&mut self, br: &mut Bitreader) -> (res: Result<(), DemoParserError>)
        requires
            old(self).wf(),
            old(br).wf(),
        ensures
            op_outcome(*final(self), *old(br), *final(br), res, spec_push_two_left_delta_one(old(br).data(), old(self).st(old(br).pos()))),
    {
        proof {
            reveal_with_fuel(push_add_n, 4);
        }
        self.add_entry(self.last, 1)?;
        self.last = self.last + 1;
        let v = br.read_ubit_var_fp()?;
        self.add_entry(self.last, v as i32)?;
        self.last = self.last + 1;
        let v = br.read_ubit_var_fp()?;
        self.add_entry(self.last, v as i32)?;
        Ok(())
    }

    fn push_two_pack5_left_delta_one(&mut self, br: &mut Bitreader) -> (res: Result<(), DemoParserError>)
        requires
            old(self).wf(),
            old(br).wf(),
        ensures
            op_outcome(*final(self), *old(br), *final(br), res, spec_push_two_pack5_left_delta_one(old(br).data(), old(self).st(old(br).pos()))),
    {
        proof {
            reveal_with_fuel(push_add_n, 4);
        }
        self.add_entry(self.last, 1)?;
        self.last = self.last + 1;
        let v = br.read_bits_checked(5)?;
        self.add_entry(self.last, v as i32)?;
        self.last = self.last + 1;
        let v = br.read_bits_checked(5)?;
        self.add_entry(self.last, v as i32)?;
        Ok(())
    }

    fn push_three_left_delta_one(&mut self, br: &mut Bitreader) -> (res: Result<(), DemoParserError>)
        requires
            old(self).wf(),
            old(br).wf(),
        ensures
            op_outcome(*final(self), *old(br), *final(br), res, spec_push_three_left_delta_one(old(br).data(), old(self).st(old(br).pos()))),
    {
        proof {
            reveal_with_fuel(push_add_n, 4);
        }
        self.add_entry(self.last, 1)?;
        self.last = self.last + 1;
        let v = br.read_ubit_var_fp()?;
        self.add_entry(self.last, v as i32)?;
        self.last = self.last + 1;
        let v = br.read_ubit_var_fp()?;
        self.add_entry(self.last, v as i32)?;
        self.last = self.last + 1;
        let v = br.read_ubit_var_fp()?;
        self.add_entry(self.last, v as i32)?;
        Ok(())
    }

    fn push_three_pack5_left_delta_one(&mut self, br: &mut Bitreader) -> (res: Result<(), DemoParserError>)
        requires
            old(self).wf(),
            old(br).wf(),
        ensures
            op_outcome(*final(self), *old(br), *final(br), res, spec_push_three_pack5_left_delta_one(old(br).data(), old(self).st(old(br).pos()))),
    {
        proof {
            reveal_with_fuel(push_add_n, 4);
        }
        self.add_entry(self.last, 1)?;
        self.last = self.last + 1;
        let v = br.read_bits_checked(5)?;
        self.add_entry(self.last, v as i32)?;
        self.last = self.last + 1;
        let v = br.read_bits_checked(5)?;
        self.add_entry(self.last, v as i32)?;
        self.last = self.last + 1;
        let v = br.read_bits_checked(5)?;
        self.add_entry(self.last, v as i32)?;
        Ok(())
    }

    fn push_two_left_delta_n(&mut self, br: &mut Bitreader) -> (res: Result<(), DemoParserError>)
        requires
            old(self).wf(),
            old(br).wf(),
        ensures
            op_outcome(*final(self), *old(br), *final(br), res, spec_push_two_left_delta_n(old(br).data(), old(self).st(old(br).pos()))),
    {
        proof {
            reveal_with_fuel(push_add_n, 4);
        }
        let v = br.read_u_bit_var()?;
        self.add_entry(self.last, (v as i32).wrapping_add(2))?;
        self.last = self.last + 1;
        let v = br.read_ubit_var_fp()?;
        self.add_entry(self.last, v as i32)?;
        self.last = self.last + 1;
        let v = br.read_ubit_var_fp()?;
        self.add_entry(self.last, v as i32)?;
        Ok(())
    }

    fn push_two_pack5_left_delta_n(&mut self, br: &mut Bitreader) -> (res: Result<(), DemoParserError>)
        requires
            old(self).wf(),
            old(br).wf(),
        ensures
            op_outcome(*final(self), *old(br), *final(br), res, spec_push_two_pack5_left_delta_n(old(br).data(), old(self).st(old(br).pos()))),
    {
        proof {
            reveal_with_fuel(push_add_n, 4);
        }
        let v = br.read_u_bit_var()?;
        self.add_entry(self.last, (v as i32).wrapping_add(2))?;
        self.last = self.last + 1;
        let v = br.read_bits_checked(5)?;
        self.add_entry(self.last, v as i32)?;
        self.last = self.last + 1;
        let v = br.read_bits_checked(5)?;
        self.add_entry(self.last, v as i32)?;
        Ok(())
    }

    fn push_three_left_delta_n(&mut self, br: &mut Bitreader) -> (res: Result<(), DemoParserError>)
        requires
            old(self).wf(),
            old(br).wf(),
        ensures
            op_outcome(*final(self), *old(br), *final(br), res, spec_push_three_left_delta_n(old(br).data(), old(self).st(old(br).pos()))),
    {
        proof {
            reveal_with_fuel(push_add_n, 4);
        }
        let v = br.read_u_bit_var()?;
        self.add_entry(self.last, (v as i32).wrapping_add(2))?;
        self.last = self.last + 1;
        let v = br.read_ubit_var_fp()?;
        self.add_entry(self.last, v as i32)?;
        self.last = self.last + 1;
        let v = br.read_ubit_var_fp()?;
        self.add_entry(self.last, v as i32)?;
        self.last = self.last + 1;
        let v = br.read_ubit_var_fp()?;
        self.add_entry(self.last, v as i32)?;
        Ok(())
    }

    fn push_three_pack5_left_delta_n(&mut self, br: &mut Bitreader) -> (res: Result<(), DemoParserError>)
        requires
            old(self).wf(),
            old(br).wf(),
        ensures
            op_outcome(*final(self), *old(br), *final(br), res, spec_push_three_pack5_left_delta_n(old(br).data(), old(self).st(old(br).pos()))),
    {
        proof {
            reveal_with_fuel(push_add_n, 4);
        }
        let v = br.read_u_bit_var()?;
        self.add_entry(self.last, (v as i32).wrapping_add(2))?;
        self.last = self.last + 1;
        let v = br.read_bits_checked(5)?;
        self.add_entry(self.last, v as i32)?;
        self.last = self.last + 1;
        let v = br.read_bits_checked(5)?;
        self.add_entry(self.last, v as i32)?;
        self.last = self.last + 1;
        let v = br.read_bits_checked(5)?;
        self.add_entry(self.last, v as i32)?;
        Ok(())
    }

    fn pop_one_plus_n(&mut self, br: &mut Bitreader) -> (res: Result<(), DemoParserError>)
        requires
            old(self).wf(),
            old(br).wf(),
        ensures
            op_outcome(*final(self), *old(br), *final(br), res, spec_pop_one_plus_n(old(br).data(), old(self).st(old(br).pos()))),
    {
        self.pop_special(1)?;
        let v = br.read_ubit_var_fp()?;
        self.add_entry(self.last, (v as i32).wrapping_add(1))?;
        Ok(())
    }

    fn pop_all_but_one_plus_n(&mut self, br: &mut Bitreader) -> (res: Result<(), DemoParserError>)
        requires
            old(self).wf(),
            old(br).wf(),
        ensures
            op_outcome(*final(self), *old(br), *final(br), res, spec_pop_all_but_one_plus_n(old(br).data(), old(self).st(old(br).pos()))),
    {
        self.pop_special(self.last)?;
        let v = br.read_ubit_var_fp()?;
        self.add_entry(0, (v as i32).wrapping_add(1))?;
        Ok(())
    }

    fn pop_all_but_one_plus_n_pack3_bits(&mut self, br: &mut Bitreader) -> (res: Result<(), DemoParserError>)
        requires
            old(self).wf(),
            old(br).wf(),
        ensures
            op_outcome(*final(self), *old(br), *final(br), res, spec_pop_all_but_one_plus_n_pack3_bits(old(br).data(), old(self).st(old(br).pos()))),
    {
        self.pop_special(self.last)?;
        let v = br.read_bits_checked(3)?;
        self.add_entry(0, (v as i32).wrapping_add(1))?;
        Ok(())
    }

    fn pop_all_but_one_plus_n_pack6_bits(&mut self, br: &mut Bitreader) -> (res: Result<(), DemoParserError>)
        requires
            old(self).wf(),
            old(br).wf(),
        ensures
            op_outcome(*final(self), *old(br), *final(br), res, spec_pop_all_but_one_plus_n_pack6_bits(old(br).data(), old(self).st(old(br).pos()))),
    {
        self.pop_special(self.last)?;
        let v = br.read_bits_checked(6)?;
        self.add_entry(0, (v as i32).wrapping_add(1))?;
        Ok(())
    }

    fn pop_n_plus_one(&mut self, br: &mut Bitreader) -> (res: Result<(), DemoParserError>)
        requires
            old(self).wf(),
            old(br).wf(),
        ensures
            op_outcome(*final(self), *old(br), *final(br), res, spec_pop_n_plus_one(old(br).data(), old(self).st(old(br).pos()))),
    {
        let n = br.read_ubit_var_fp()?;
        self.pop_special(n as usize)?;
        self.add_entry(self.last, 1)?;
        Ok(())
    }

    fn pop_n_plus_n(&mut self, br: &mut Bitreader) -> (res: Result<(), DemoParserError>)
        requires
            old(self).wf(),
            old(br).wf(),
        ensures
            op_outcome(*final(self), *old(br), *final(br), res, spec_pop_n_plus_n(old(br).data(), old(self).st(old(br).pos()))),
    {
        let n = br.read_ubit_var_fp()?;
        self.pop_special(n as usize)?;
        let v = br.read_varint32()?;
        self.add_entry(self.last, v)?;
        Ok(())
    }
}


impl FieldPath {
    /// Reads the amount of a `Delta`.
    fn read_delta(br: &mut Bitreader, k: Delta) -> (res: Result<i32, DemoParserError>)
        requires
            old(br).wf(),
        ensures
            final(br).wf(),
            final(br).data() == old(br).data(),
            match read_delta(old(br).data(), (Seq::empty(), 0, old(br).pos()), k) {
                Ok((x, st)) => res == Ok::<i32, DemoParserError>(x) && final(br).pos() == st.2,
                Err(e) => res == Err::<i32, DemoParserError>(e),
            },
    {
        match k {
            Delta::ZigPlusOne => {
                let v = br.read_varint32()?;
                Ok(v.wrapping_add(1))
            },
            Delta::Zig => br.read_varint32(),
            Delta::Bits4MinusSeven => {
                let v = br.read_nbits(4)?;
                proof {
                    vstd::arithmetic::power2::lemma2_to64();
                }
                Ok(v as i32 - 7)
            },
        }
    }

    /// For each entry from the first to the last: read a flag and, when it
    /// is set, add an amount read as `k` says.
    fn non_topo_loop(&mut self, br: &mut Bitreader, k: Delta) -> (res: Result<(), DemoParserError>)
        requires
            old(self).wf(),
            old(br).wf(),
        ensures
            op_outcome(*final(self), *old(br), *final(br), res,
                non_topo(old(br).data(), old(self).st(old(br).pos()), 0, old(self).last as int, k)),
    {
        let ghost d = br.data();
        let ghost target = non_topo(d, self.st(br.pos()), 0, self.last as int, k);
        let hi = self.last;
        let mut i: usize = 0;
        while i <= hi
            invariant
                br.wf(),
                br.data() == d,
                d == old(br).data(),
                self.last == hi,
                hi < 7,
                i <= hi + 1,
                target == non_topo(old(br).data(), old(self).st(old(br).pos()), 0, old(self).last as int, k),
                target == non_topo(d, self.st(br.pos()), i as int, hi as int, k),
            decreases hi + 1 - i,
        {
            let ghost s0 = self.st(br.pos());
            if br.read_boolean()? {
                let ghost s1 = self.st(br.pos());
                let x = Self::read_delta(br, k);
                proof {
                    match read_delta(d, (Seq::empty(), 0, s1.2), k) {
                        Ok((xx, st)) => {
                            assert(read_delta(d, s1, k) == Ok::<(i32, FpState), DemoParserError>((xx, (s1.0, s1.1, st.2))));
                        },
                        Err(e) => {
                            assert(read_delta(d, s1, k) == Err::<(i32, FpState), DemoParserError>(e));
                        },
                    }
                }
                let x = x?;
                self.add_entry(i, x)?;
            }
            i += 1;
        }
        Ok(())
    }
}


impl FieldPath {
    /// `n` times: move the last index on and add (or, if `set`, write) a
    /// read field-path number there.
    fn push_reads(&mut self, br: &mut Bitreader, n: u32, set: bool) -> (res: Result<(), DemoParserError>)
        requires
            old(self).wf(),
            old(br).wf(),
        ensures
            op_outcome(*final(self), *old(br), *final(br), res, if set {
                push_set_n(old(br).data(), old(self).st(old(br).pos()), Reading::Fp, n as nat)
            } else {
                push_add_n(old(br).data(), old(self).st(old(br).pos()), Reading::Fp, n as nat)
            }),
    {
        let ghost d = br.data();
        let ghost target = if set {
            push_set_n(d, self.st(br.pos()), Reading::Fp, n as nat)
        } else {
            push_add_n(d, self.st(br.pos()), Reading::Fp, n as nat)
        };
        let mut k: u32 = 0;
        while k < n
            invariant
                br.wf(),
                br.data() == d,
                d == old(br).data(),
                target == if set {
                    push_set_n(old(br).data(), old(self).st(old(br).pos()), Reading::Fp, n as nat)
                } else {
                    push_add_n(old(br).data(), old(self).st(old(br).pos()), Reading::Fp, n as nat)
                },
                self.wf(),
                k <= n,
                target == if set {
                    push_set_n(d, self.st(br.pos()), Reading::Fp, (n - k) as nat)
                } else {
                    push_add_n(d, self.st(br.pos()), Reading::Fp, (n - k) as nat)
                },
            decreases n - k,
        {
            self.last = self.last + 1;
            let r = br.read_ubit_var_fp()?;
            if set {
                self.set_entry(self.last, r as i32)?;
            } else {
                assert(wadd(r as i32, 0) == r as i32);
                self.add_entry(self.last, r as i32)?;
            }
            k += 1;
        }
        Ok(())
    }

    fn push_n(&mut self, br: &mut Bitreader) -> (res: Result<(), DemoParserError>)
        requires
            old(self).wf(),
            old(br).wf(),
        ensures
            op_outcome(*final(self), *old(br), *final(br), res, spec_push_n(old(br).data(), old(self).st(old(br).pos()))),
    {
        let n = br.read_u_bit_var()? as i32;
        let v = br.read_u_bit_var()?;
        assert(wadd(v as i32, 0) == v as i32);
        self.add_entry(self.last, v as i32)?;
        let count: u32 = if n < 0 { 0 } else { n as u32 };
        self.push_reads(br, count, false)
    }

    fn push_n_and_non_topological(&mut self, br: &mut Bitreader) -> (res: Result<(), DemoParserError>)
        requires
            old(self).wf(),
            old(br).wf(),
        ensures
            op_outcome(*final(self), *old(br), *final(br), res,
                spec_push_n_and_non_topological(old(br).data(), old(self).st(old(br).pos()))),
    {
        self.non_topo_loop(br, Delta::ZigPlusOne)?;
        let count = br.read_u_bit_var()?;
        self.push_reads(br, count, true)
    }

    fn pop_n_and_non_topographical(&mut self, br: &mut Bitreader) -> (res: Result<(), DemoParserError>)
        requires
            old(self).wf(),
            old(br).wf(),
        ensures
            op_outcome(*final(self), *old(br), *final(br), res,
                spec_pop_n_and_non_topographical(old(br).data(), old(self).st(old(br).pos()))),
    {
        let n = br.read_ubit_var_fp()?;
        self.pop_special(n as usize)?;
        self.non_topo_loop(br, Delta::Zig)
    }

    fn non_topo_complex(&mut self, br: &mut Bitreader) -> (res: Result<(), DemoParserError>)
        requires
            old(self).wf(),
            old(br).wf(),
        ensures
            op_outcome(*final(self), *old(br), *final(br), res, spec_non_topo_complex(old(br).data(), old(self).st(old(br).pos()))),
    {
        self.non_topo_loop(br, Delta::Zig)
    }

    fn non_topo_complex_pack4_bits(&mut self, br: &mut Bitreader) -> (res: Result<(), DemoParserError>)
        requires
            old(self).wf(),
            old(br).wf(),
        ensures
            op_outcome(*final(self), *old(br), *final(br), res,
                spec_non_topo_complex_pack4_bits(old(br).data(), old(self).st(old(br).pos()))),
    {
        self.non_topo_loop(br, Delta::Bits4MinusSeven)
    }
}


impl FieldPath {
    /// Applies field-path op `opcode`, reading what it needs from `br`.
    /// Opcodes above 38 are unknown ops.
    pub fn do_op(&mut self, opcode: u8, br: &mut Bitreader) -> (res: Result<(), DemoParserError>)
        requires
            old(self).wf(),
            old(br).wf(),
        ensures
            op_outcome(*final(self), *old(br), *final(br), res, spec_do_op(opcode, old(br).data(), old(self).st(old(br).pos()))),
            opcode > 38 ==> res == Err::<(), DemoParserError>(DemoParserError::UnknownPathOp)
                && *final(self) == *old(self) && *final(br) == *old(br),
    {
        match opcode {
            0 => self.plus_one(),
            1 => self.plus_two(),
            2 => self.plus_three(),
            3 => self.plus_four(),
            4 => self.plus_n(br),
            5 => self.push_one_left_delta_zero_right_zero(),
            6 => self.push_one_left_delta_zero_right_non_zero(br),
            7 => self.push_one_left_delta_one_right_zero(),
            8 => self.push_one_left_delta_one_right_non_zero(br),
            9 => self.push_one_left_delta_n_right_zero(br),
            10 => self.push_one_left_delta_n_right_non_zero(br),
            11 => self.push_one_left_delta_n_right_non_zero_pack6_bits(br),
            12 => self.push_one_left_delta_n_right_non_zero_pack8_bits(br),
            13 => self.push_two_left_delta_zero(br),
            14 => self.push_two_pack5_left_delta_zero(br),
            15 => self.push_three_left_delta_zero(br),
            16 => self.push_three_pack5_left_delta_zero(br),
            17 => self.push_two_left_delta_one(br),
            18 => self.push_two_pack5_left_delta_one(br),
            19 => self.push_three_left_delta_one(br),
            20 => self.push_three_pack5_left_delta_one(br),
            21 => self.push_two_left_delta_n(br),
            22 => self.push_two_pack5_left_delta_n(br),
            23 => self.push_three_left_delta_n(br),
            24 => self.push_three_pack5_left_delta_n(br),
            25 => self.push_n(br),
            26 => self.push_n_and_non_topological(br),
            27 => self.pop_one_plus_one(),
            28 => self.pop_one_plus_n(br),
            29 => self.pop_all_but_one_plus_one(),
            30 => self.pop_all_but_one_plus_n(br),
            31 => self.pop_all_but_one_plus_n_pack3_bits(br),
            32 => self.pop_all_but_one_plus_n_pack6_bits(br),
            33 => self.pop_n_plus_one(br),
            34 => self.pop_n_plus_n(br),
            35 => self.pop_n_and_non_topographical(br),
            36 => self.non_topo_complex(br),
            37 => self.non_topo_penultimate_plus_one(),
            38 => self.non_topo_complex_pack4_bits(br),
            _ => Err(DemoParserError::UnknownPathOp),
        }
    }

    /// The entry at `idx`, to be changed in place; an index past the seventh
    /// entry is an illegal op.
    pub fn get_entry_mut(&mut self, idx: usize) -> (res: Result<&mut i32, DemoParserError>)
        ensures
            idx < 7 ==> res is Ok && *res.unwrap() == old(self).path@[idx as int]
                && final(self).path@ == old(self).path@.update(idx as int, *final(res.unwrap())) && final(self).last == old(self).last,
            idx >= 7 ==> res == Err::<&mut i32, DemoParserError>(DemoParserError::IllegalPathOp)
                && *final(self) == *old(self),
    {
        if idx >= 7 {
            return Err(DemoParserError::IllegalPathOp);
        }
        Ok(&mut self.path[idx])
    }
}

} // verus!
