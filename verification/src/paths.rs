use vstd::prelude::*;
use crate::error::DemoParserError;
use crate::packet::{lemma_u_bit_var_advances, lemma_bit_varint_advances};
use crate::bitreader::{Bitreader, peek_padded};
use crate::field_path::{FieldPath, FpState, Reading, Delta, spec_do_op, st_read_kind, st_add, st_pop, st_push, add_read,
    set_read, push_add_n, push_set_n, non_topo, pop_read, read_delta};

verus! {

/// A step from state `s` either failed or ended at a position no earlier
/// than `s`'s and within the stream.
pub open spec fn moved_on(d: Seq<u8>, s: FpState, r: Result<FpState, DemoParserError>) -> bool {
    match r {
        Ok(t) => s.2 <= t.2 <= 8 * d.len(),
        Err(_) => true,
    }
}

/// Reading a number keeps the path and moves forward within the stream.
proof fn lemma_read_moves_on(d: Seq<u8>, s: FpState, k: Reading)
    requires
        0 <= s.2,
    ensures
        match st_read_kind(d, s, k) {
            Ok((v, t)) => t.0 == s.0 && t.1 == s.1 && s.2 <= t.2 <= 8 * d.len(),
            Err(_) => true,
        },
{
    lemma_u_bit_var_advances(d, s.2);
}

/// Reading a number and writing it moves forward within the stream.
proof fn lemma_write_read_moves_on(d: Seq<u8>, s: FpState, k: Reading, off: i32)
    requires
        0 <= s.2,
    ensures
        moved_on(d, s, add_read(d, s, k, off)),
        moved_on(d, s, set_read(d, s, k, off)),
{
    lemma_read_moves_on(d, s, k);
}

/// Reading a delta keeps the path and moves forward within the stream.
proof fn lemma_delta_moves_on(d: Seq<u8>, s: FpState, k: Delta)
    requires
        0 <= s.2,
    ensures
        match read_delta(d, s, k) {
            Ok((x, t)) => t.0 == s.0 && t.1 == s.1 && s.2 <= t.2 <= 8 * d.len(),
            Err(_) => true,
        },
{
    lemma_bit_varint_advances(d, s.2, 0, 0);
}

/// Pushing read entries one by one moves forward within the stream.
proof fn lemma_push_n_moves_on(d: Seq<u8>, s: FpState, k: Reading, n: nat)
    requires
        0 <= s.2 <= 8 * d.len(),
    ensures
        moved_on(d, s, push_add_n(d, s, k, n)),
        moved_on(d, s, push_set_n(d, s, k, n)),
    decreases n,
{
    if n > 0 {
        lemma_write_read_moves_on(d, st_push(s), k, 0);
        if let Ok(s1) = add_read(d, st_push(s), k, 0) {
            lemma_push_n_moves_on(d, s1, k, (n - 1) as nat);
        }
        if let Ok(s1) = set_read(d, st_push(s), k, 0) {
            lemma_push_n_moves_on(d, s1, k, (n - 1) as nat);
        }
    }
}

/// The flagged additions move forward within the stream.
proof fn lemma_non_topo_moves_on(d: Seq<u8>, s: FpState, i: int, hi: int, k: Delta)
    requires
        0 <= s.2 <= 8 * d.len(),
    ensures
        moved_on(d, s, non_topo(d, s, i, hi, k)),
    decreases hi + 1 - i,
{
    if i <= hi {
        if let Ok((flag, p1)) = crate::bitreader::spec_flag(d, s.2) {
            let s1 = (s.0, s.1, p1);
            if flag {
                lemma_delta_moves_on(d, s1, k);
                if let Ok((x, s2)) = read_delta(d, s1, k) {
                    if let Ok(s3) = st_add(s2, i, x) {
                        lemma_non_topo_moves_on(d, s3, i + 1, hi, k);
                    }
                }
            } else {
                lemma_non_topo_moves_on(d, s1, i + 1, hi, k);
            }
        }
    }
}

/// Field-path ops 0 to 12 move forward within the stream.
proof fn lemma_ops_low_move_on(opcode: u8, d: Seq<u8>, s: FpState)
    requires
        0 <= s.2 <= 8 * d.len(),
        opcode <= 12,
    ensures
        moved_on(d, s, spec_do_op(opcode, d, s)),
{
    let fp = Reading::Fp;
    if opcode == 4 {
        lemma_write_read_moves_on(d, s, fp, 5);
    } else if opcode == 6 {
        lemma_write_read_moves_on(d, st_push(s), fp, 0);
    } else if opcode == 8 {
        if let Ok(s1) = st_add(s, s.1, 1) {
            lemma_write_read_moves_on(d, st_push(s1), fp, 0);
        }
    } else if opcode == 9 {
        lemma_write_read_moves_on(d, s, fp, 0);
    } else if opcode >= 10 {
        let k = if opcode == 10 { fp } else if opcode == 11 { Reading::Bits(3) } else { Reading::Bits(4) };
        lemma_write_read_moves_on(d, s, k, 2);
        if let Ok(s1) = add_read(d, s, k, 2) {
            lemma_write_read_moves_on(d, st_push(s1), k, 1);
        }
    }
}

/// Field-path ops 13 to 26 move forward within the stream.
proof fn lemma_ops_push_move_on(opcode: u8, d: Seq<u8>, s: FpState)
    requires
        0 <= s.2 <= 8 * d.len(),
        13 <= opcode <= 26,
    ensures
        moved_on(d, s, spec_do_op(opcode, d, s)),
{
    let fp = Reading::Fp;
    let ubv = Reading::UBitVar;
    let b5 = Reading::Bits(5);
    if opcode <= 16 {
        lemma_push_n_moves_on(d, s, fp, 2);
        lemma_push_n_moves_on(d, s, b5, 2);
        lemma_push_n_moves_on(d, s, fp, 3);
        lemma_push_n_moves_on(d, s, b5, 3);
    } else if opcode <= 20 {
        if let Ok(s1) = st_add(s, s.1, 1) {
            lemma_push_n_moves_on(d, s1, fp, 2);
            lemma_push_n_moves_on(d, s1, b5, 2);
            lemma_push_n_moves_on(d, s1, fp, 3);
            lemma_push_n_moves_on(d, s1, b5, 3);
        }
    } else if opcode <= 24 {
        lemma_write_read_moves_on(d, s, ubv, 2);
        if let Ok(s1) = add_read(d, s, ubv, 2) {
            lemma_push_n_moves_on(d, s1, fp, 2);
            lemma_push_n_moves_on(d, s1, b5, 2);
            lemma_push_n_moves_on(d, s1, fp, 3);
            lemma_push_n_moves_on(d, s1, b5, 3);
        }
    } else if opcode == 25 {
        lemma_read_moves_on(d, s, ubv);
        if let Ok((n, s1)) = st_read_kind(d, s, ubv) {
            lemma_write_read_moves_on(d, s1, ubv, 0);
            if let Ok(s2) = add_read(d, s1, ubv, 0) {
                lemma_push_n_moves_on(d, s2, fp, if (n as i32) < 0 { 0 } else { (n as i32) as nat });
            }
        }
    } else {
        lemma_non_topo_moves_on(d, s, 0, s.1, Delta::ZigPlusOne);
        if let Ok(s1) = non_topo(d, s, 0, s.1, Delta::ZigPlusOne) {
            lemma_read_moves_on(d, s1, ubv);
            if let Ok((count, s2)) = st_read_kind(d, s1, ubv) {
                lemma_push_n_moves_on(d, s2, fp, count as nat);
            }
        }
    }
}

/// Field-path ops 27 to 38 move forward within the stream.
proof fn lemma_ops_pop_move_on(opcode: u8, d: Seq<u8>, s: FpState)
    requires
        0 <= s.2 <= 8 * d.len(),
        27 <= opcode <= 38,
    ensures
        moved_on(d, s, spec_do_op(opcode, d, s)),
{
    let fp = Reading::Fp;
    if opcode == 28 {
        if let Ok(s1) = st_pop(s, 1) {
            lemma_write_read_moves_on(d, s1, fp, 1);
        }
    } else if 30 <= opcode <= 32 {
        if let Ok(s1) = st_pop(s, s.1) {
            let k = if opcode == 30 { fp } else if opcode == 31 { Reading::Bits(3) } else { Reading::Bits(6) };
            lemma_read_moves_on(d, s1, k);
        }
    } else if 33 <= opcode <= 35 {
        lemma_read_moves_on(d, s, fp);
        if let Ok(s1) = pop_read(d, s) {
            lemma_delta_moves_on(d, s1, Delta::Zig);
            lemma_non_topo_moves_on(d, s1, 0, s1.1, Delta::Zig);
        }
    } else if opcode == 36 {
        lemma_non_topo_moves_on(d, s, 0, s.1, Delta::Zig);
    } else if opcode == 38 {
        lemma_non_topo_moves_on(d, s, 0, s.1, Delta::Bits4MinusSeven);
    }
}

/// A field-path op that succeeds never moves the reader back, nor past the
/// end of the stream.
pub proof fn lemma_do_op_moves_on(opcode: u8, d: Seq<u8>, s: FpState)
    requires
        0 <= s.2 <= 8 * d.len(),
    ensures
        moved_on(d, s, spec_do_op(opcode, d, s)),
{
    if opcode <= 12 {
        lemma_ops_low_move_on(opcode, d, s);
    } else if opcode <= 26 {
        lemma_ops_push_move_on(opcode, d, s);
    } else if opcode <= 38 {
        lemma_ops_pop_move_on(opcode, d, s);
    }
}

/// The number of bits a Huffman code of a field-path op takes at most.
pub const HUFFMAN_CODE_MAXLEN: u32 = 17;

/// The symbol that ends the list of field paths.
pub const STOP_READING_SYMBOL: u8 = 39;

/// The number of entries of a Huffman lookup table: one per value of the
/// longest code.
pub const HUFFMAN_TABLE_LEN: usize = 131072;

/// What one step of reading field paths does.
pub enum PathStep {
    /// The stop code ended at this position.
    Stop(int),
    /// An op was applied, giving this state.
    Next(FpState),
    /// The step failed.
    Fail(DemoParserError),
}

/// One step of reading field paths from state `s`: peek at the next
/// seventeen bits (zeros past the end), look up the symbol and the length
/// of its code in `table`, and consume the code; the stop symbol ends the
/// list, any other is a field-path op, applied after the code.
pub open spec fn path_step(d: Seq<u8>, table: Seq<(u8, u8)>, s: FpState) -> PathStep {
    if s.2 < 0 || s.2 > 8 * d.len() {
        PathStep::Fail(DemoParserError::OutOfBitsError)
    } else {
        let k = peek_padded(d, s.2, HUFFMAN_CODE_MAXLEN as nat);
        if k >= table.len() {
            PathStep::Fail(DemoParserError::OutOfBitsError)
        } else {
            let symbol = table[k as int].0;
            let code_len = table[k as int].1 as int;
            if s.2 + code_len > 8 * d.len() {
                PathStep::Fail(DemoParserError::OutOfBitsError)
            } else if symbol == STOP_READING_SYMBOL {
                PathStep::Stop(s.2 + code_len)
            } else if code_len == 0 {
                PathStep::Fail(DemoParserError::OutOfBitsError)
            } else {
                match spec_do_op(symbol, d, (s.0, s.1, s.2 + code_len)) {
                    Err(e) => PathStep::Fail(e),
                    Ok(t) => PathStep::Next(t),
                }
            }
        }
    }
}

/// A step that applies an op moves forward, within the stream.
pub proof fn lemma_path_step_moves_on(d: Seq<u8>, table: Seq<(u8, u8)>, s: FpState)
    ensures
        path_step(d, table, s) matches PathStep::Next(t) ==> s.2 < t.2 <= 8 * d.len(),
{
    if 0 <= s.2 <= 8 * d.len() {
        let k = peek_padded(d, s.2, HUFFMAN_CODE_MAXLEN as nat);
        if k < table.len() {
            let code_len = table[k as int].1 as int;
            if s.2 + code_len <= 8 * d.len() {
                lemma_do_op_moves_on(table[k as int].0, d, (s.0, s.1, s.2 + code_len));
            }
        }
    }
}

/// The paths of an entity update from state `s` on, after `acc`, step by
/// step until the stop code: the paths recorded (path entries and last
/// index) and the position after the stop code, or the error that ended
/// the list.
pub open spec fn paths_from(d: Seq<u8>, table: Seq<(u8, u8)>, s: FpState, acc: Seq<(Seq<i32>, int)>)
    -> (Seq<(Seq<i32>, int)>, Result<int, DemoParserError>)
    decreases 8 * d.len() - s.2,
{
    proof {
        lemma_path_step_moves_on(d, table, s);
    }
    match path_step(d, table, s) {
        PathStep::Stop(end) => (acc, Ok(end)),
        PathStep::Fail(e) => (acc, Err(e)),
        PathStep::Next(t) => paths_from(d, table, t, acc.push((t.0, t.1))),
    }
}

/// One step of reading field paths, as `path_step` says: `false` at the
/// stop code, `true` after an op.
fn read_path_step(fp: &mut FieldPath, br: &mut Bitreader, table: &Vec<(u8, u8)>) -> (r: Result<bool, DemoParserError>)
    requires
        old(fp).wf(),
        old(br).wf(),
        table@.len() == HUFFMAN_TABLE_LEN,
        forall|i: int| 0 <= i < table@.len() ==> 1 <= #[trigger] table@[i].1 <= HUFFMAN_CODE_MAXLEN,
    ensures
        final(br).wf(),
        final(br).data() == old(br).data(),
        match path_step(old(br).data(), table@, old(fp).st(old(br).pos())) {
            PathStep::Stop(end) => r == Ok::<bool, DemoParserError>(false) && final(br).pos() == end,
            PathStep::Next(t) => r == Ok::<bool, DemoParserError>(true) && final(fp).st(final(br).pos()) == t
                && final(fp).wf(),
            PathStep::Fail(e) => r == Err::<bool, DemoParserError>(e),
        },
{
    let ghost d = br.data();
    proof {
        br.lemma_pos_within();
        crate::bitreader::lemma_bits_value_bound(d, br.pos(), HUFFMAN_CODE_MAXLEN as nat);
        crate::bitreader::lemma_bits_value_bound(d, br.pos(), (8 * d.len() - br.pos()) as nat);
        if 8 * d.len() - br.pos() < 17 {
            vstd::arithmetic::power2::lemma_pow2_strictly_increases((8 * d.len() - br.pos()) as nat, 17);
        }
        vstd::arithmetic::power2::lemma2_to64();
    }
    let peeked = br.peek_bits(HUFFMAN_CODE_MAXLEN);
    let (symbol, code_len) = table[peeked as usize];
    match br.read_nbits(code_len as u32) {
        Ok(_) => {},
        Err(e) => return Err(e),
    }
    if symbol == STOP_READING_SYMBOL {
        return Ok(false);
    }
    fp.do_op(symbol, br)?;
    Ok(true)
}

/// The paths of an entity update at bit `p`, starting from the empty path.
pub open spec fn spec_paths(d: Seq<u8>, table: Seq<(u8, u8)>, p: int) -> (Seq<(Seq<i32>, int)>, Result<int, DemoParserError>) {
    paths_from(d, table, (seq![-1i32, 0, 0, 0, 0, 0, 0], 0, p), Seq::empty())
}

/// A field path holds the recorded path `r`.
pub open spec fn holds_path(fp: FieldPath, r: (Seq<i32>, int)) -> bool {
    fp.path@ == r.0 && fp.last as int == r.1
}

/// `after` is `before` with `fp` at `idx`, default paths filling any gap.
pub open spec fn written_at(before: Seq<FieldPath>, after: Seq<FieldPath>, idx: int, fp: FieldPath) -> bool {
    &&& after.len() == (if idx < before.len() { before.len() as int } else { idx + 1 })
    &&& after[idx] == fp
    &&& forall|i: int| 0 <= i < after.len() && i != idx ==> if i < before.len() {
        #[trigger] after[i] == before[i]
    } else {
        after[i].path@ == seq![-1i32, 0, 0, 0, 0, 0, 0] && after[i].last == 0
    }
}

/// Stores `fp` at position `idx` of `paths`, growing it with empty paths
/// where it is too short.
pub fn write_fp(paths: &mut Vec<FieldPath>, fp: FieldPath, idx: usize)
    requires
        idx < usize::MAX,
    ensures
        written_at(old(paths)@, final(paths)@, idx as int, fp),
{
    if idx < paths.len() {
        paths.set(idx, fp);
        return;
    }
    let ghost before = paths@;
    while paths.len() < idx
        invariant
            before.len() <= paths@.len() <= idx,
            forall|i: int| 0 <= i < paths@.len() ==> if i < before.len() {
                #[trigger] paths@[i] == before[i]
            } else {
                paths@[i].path@ == seq![-1i32, 0, 0, 0, 0, 0, 0] && paths@[i].last == 0
            },
        decreases idx - paths@.len(),
    {
        paths.push(FieldPath::default());
    }
    paths.push(fp);
}

/// Reads the field paths of an entity update into `paths`, as `spec_paths`
/// says, and gives their number. `table` maps every seventeen-bit value
/// to the symbol whose code it starts with and the code's length, which is
/// one to seventeen bits long.
pub fn parse_paths(br: &mut Bitreader, table: &Vec<(u8, u8)>, paths: &mut Vec<FieldPath>) -> (r: Result<usize, DemoParserError>)
    requires
        old(br).wf(),
        8 * old(br).data().len() <= usize::MAX,
        table@.len() == HUFFMAN_TABLE_LEN,
        forall|i: int| 0 <= i < table@.len() ==> 1 <= #[trigger] table@[i].1 <= HUFFMAN_CODE_MAXLEN,
    ensures
        final(br).wf(),
        final(br).data() == old(br).data(),
        final(paths)@.len() >= old(paths)@.len(),
        final(paths)@.len() >= spec_paths(old(br).data(), table@, old(br).pos()).0.len(),
        forall|i: int| 0 <= i < spec_paths(old(br).data(), table@, old(br).pos()).0.len()
            ==> holds_path(#[trigger] final(paths)@[i], spec_paths(old(br).data(), table@, old(br).pos()).0[i]),
        forall|i: int| spec_paths(old(br).data(), table@, old(br).pos()).0.len() <= i < final(paths)@.len()
            ==> #[trigger] final(paths)@[i] == old(paths)@[i],
        match spec_paths(old(br).data(), table@, old(br).pos()).1 {
            Ok(end) => r == Ok::<usize, DemoParserError>(spec_paths(old(br).data(), table@, old(br).pos()).0.len() as usize)
                && final(br).pos() == end,
            Err(e) => r == Err::<usize, DemoParserError>(e),
        },
{
    let ghost d = br.data();
    let ghost target = spec_paths(d, table@, br.pos());
    let ghost p0 = br.pos();
    proof {
        br.lemma_pos_within();
    }
    let ghost old_paths = paths@;
    let mut fp = FieldPath::default();
    let mut idx: usize = 0;
    let ghost mut acc: Seq<(Seq<i32>, int)> = Seq::empty();
    proof {
        assert(fp.st(br.pos()) == (seq![-1i32, 0, 0, 0, 0, 0, 0], 0int, br.pos()));
    }
    loop
        invariant
            br.wf(),
            br.data() == d,
            fp.wf(),
            table@.len() == HUFFMAN_TABLE_LEN,
            forall|i: int| 0 <= i < table@.len() ==> 1 <= #[trigger] table@[i].1 <= HUFFMAN_CODE_MAXLEN,
            idx == acc.len(),
            d == old(br).data(),
            p0 == old(br).pos(),
            old_paths == old(paths)@,
            target == spec_paths(old(br).data(), table@, old(br).pos()),
            8 * d.len() <= usize::MAX,
            0 <= p0,
            idx <= br.pos() - p0,
            br.pos() <= 8 * d.len(),
            paths_from(d, table@, fp.st(br.pos()), acc) == target,
            paths@.len() == (if idx < old_paths.len() { old_paths.len() as int } else { idx as int }),
            forall|i: int| 0 <= i < idx ==> holds_path(#[trigger] paths@[i], acc[i]),
            forall|i: int| idx <= i < paths@.len() ==> #[trigger] paths@[i] == old_paths[i],
        decreases 8 * d.len() - br.pos(),
    {
        let ghost s = fp.st(br.pos());
        proof {
            lemma_path_step_moves_on(d, table@, s);
        }
        let go = read_path_step(&mut fp, br, table)?;
        if !go {
            return Ok(idx);
        }
        let ghost t = fp.st(br.pos());
        write_fp(paths, fp, idx);
        proof {
            acc = acc.push((t.0, t.1));
        }
        idx = idx + 1;
    }
}

} // verus!
