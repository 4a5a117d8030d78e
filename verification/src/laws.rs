use vstd::prelude::*;
use crate::variants::{Variant, VarKind, Cell, pushed_cells, storable, keep};
use crate::prop_controller::{PropController, id_settled, id_for, names_view};
use crate::lookup::{first_value, first_index, lemma_first_index};
use crate::stringtables::keys_after;
use crate::strings::{decimal, digit_char};
use crate::full_packet::{parsed_u32, digits_value, digit_value, all_digits};
use crate::equality::{views_equal, cells_equal, f32_eq};
use crate::collect::VarView;
use crate::field_path::{FpState, spec_do_op, st_add, st_set, st_push, st_pop, st_read_kind, add_read, set_read,
    push_add_n, push_set_n, non_topo, pop_read, Reading, Delta, read_delta, and_then};
use crate::error::DemoParserError;
use crate::varint::{varint_bytes, spec_varint, spec_varint_from};

verus! {

/// Pushing an empty row, or a value of the column's kind, adds exactly one
/// row; so does the first value of a column without values, after its
/// empty rows.
pub proof fn lemma_push_adds_row(kind: VarKind, cells: Seq<Cell>, item: Option<Variant>)
    requires
        item matches Some(v) ==> storable(v, kind),
    ensures
        pushed_cells(kind, cells, item).len() == cells.len() + 1,
        pushed_cells(kind, cells, item).take(cells.len() as int) == cells,
{
    assert(pushed_cells(kind, cells, item).take(cells.len() as int) =~= cells);
}

/// Keeping every position keeps everything.
pub proof fn lemma_keep_all<A>(s: Seq<A>, set: Set<int>)
    requires
        forall|i: int| 0 <= i < s.len() ==> set.contains(i),
    ensures
        keep(s, set) == s,
    decreases s.len(),
{
    if s.len() > 0 {
        lemma_keep_all(s.drop_last(), set);
        assert(s.drop_last().push(s.last()) =~= s);
    }
}

/// Keeping no position keeps nothing.
pub proof fn lemma_keep_none<A>(s: Seq<A>, set: Set<int>)
    requires
        forall|i: int| 0 <= i < s.len() ==> !set.contains(i),
    ensures
        keep(s, set).len() == 0,
    decreases s.len(),
{
    if s.len() > 0 {
        lemma_keep_none(s.drop_last(), set);
    }
}

/// The key history never holds more than 32 keys.
pub proof fn lemma_key_history_bounded(keys: Seq<Seq<char>>, key: Seq<char>)
    requires
        keys.len() <= 32,
    ensures
        keys_after(keys, key).len() <= 32,
        keys_after(keys, key).last() == key,
{
}

/// A property keeps its id: once a property has its id, giving it one again
/// changes nothing and gives the same id, whether it was new or known.
pub proof fn lemma_prop_id_stable(c0: PropController, c1: PropController, c2: PropController, name: Seq<char>, gw1: bool, gw2: bool)
    requires
        id_settled(c0, name, gw1, c1),
        id_settled(c1, name, gw2, c2),
    ensures
        c2 == c1,
        id_for(c1, name) == id_for(c0, name),
        first_value(c1.name_to_id@, name) == Some(id_for(c0, name)),
{
    if first_value(c0.name_to_id@, name) is None {
        let s = c1.name_to_id@;
        let n0 = c0.name_to_id@.len();
        lemma_first_index(c0.name_to_id@, name);
        lemma_first_index(s, name);
        assert(names_view(s) == names_view(c0.name_to_id@).push((name, c0.id)));
        assert(s.len() == n0 + 1);
        assert(names_view(s)[n0 as int] == (name, c0.id));
        assert(s[n0 as int].0@ == name && s[n0 as int].1 == c0.id);
        assert forall|j: int| 0 <= j < n0 implies #[trigger] s[j].0@ != name by {
            assert(names_view(s)[j] == names_view(c0.name_to_id@)[j]);
            assert(c0.name_to_id@[j].0@ != name);
        }
        match first_index(s, name) {
            Some(i) => {
                if i < n0 {
                    assert(s[i].0@ == name);
                }
                assert(i == n0);
            },
            None => {
                assert(s[n0 as int].0@ != name);
            },
        }
    }
}

/// The digits `decimal(n)` writes are decimal digits, and they write `n`.
proof fn lemma_decimal_digits(n: nat)
    ensures
        forall|i: int| 0 <= i < decimal(n).len() ==> '0' <= #[trigger] decimal(n)[i] <= '9',
        decimal(n).len() > 0,
        digits_value(decimal(n)) == n,
    decreases n,
{
    assert(digit_value(digit_char(n % 10)) == n % 10);
    if n >= 10 {
        lemma_decimal_digits(n / 10);
        let d = decimal(n);
        assert(d.drop_last() =~= decimal(n / 10));
        assert(d.last() == digit_char(n % 10));
        assert((n / 10) * 10 + n % 10 == n) by {
            vstd::arithmetic::div_mod::lemma_fundamental_div_mod(n as int, 10);
        }
        assert(digits_value(d) == digits_value(decimal(n / 10)) * 10 + digit_value(digit_char(n % 10)));
        assert forall|i: int| 0 <= i < d.len() implies '0' <= #[trigger] d[i] <= '9' by {
            if i < d.len() - 1 {
                assert(d[i] == decimal(n / 10)[i]);
            }
        }
    } else {
        let d = decimal(n);
        assert(d.drop_last() =~= Seq::<char>::empty());
        assert(digits_value(d.drop_last()) == 0);
        assert(d.last() == digit_char(n));
        assert(n % 10 == n);
        assert(digits_value(d) == digit_value(digit_char(n)));
    }
}

/// Reading a number back from the decimal text it is written as gives the
/// number: a baseline key written by `to_string` is found again.
pub proof fn law_decimal_reads_back(n: u32)
    ensures
        parsed_u32(decimal(n as nat)) == Some(n),
{
    lemma_decimal_digits(n as nat);
    let d = decimal(n as nat);
    assert(d[0] != '+');
    assert(all_digits(d));
}

/// Comparing two values gives the same answer either way round.
pub proof fn law_values_equal_symmetric(a: VarView, b: VarView)
    ensures
        views_equal(a, b) == views_equal(b, a),
{
    assert(cells_equal(a.1, b.1) == cells_equal(b.1, a.1));
}

/// A floating-point value that is a number equals itself, and NaN equals
/// nothing, not even itself.
pub proof fn law_float_reflexive(x: u32)
    ensures
        f32_eq(x, x) <==> !((x & 0x7f80_0000u32) == 0x7f80_0000u32 && (x & 0x007f_ffffu32) != 0),
{
}


/// Reading the rest of an encoding, with the low `7 * i` bits of `v`
/// already gathered, gives `v` and ends after the encoding.
proof fn lemma_varint_rest(bytes: Seq<u8>, p: int, i: u32, v: u32)
    requires
        i <= 4,
        0 <= p,
        p + varint_bytes(v >> (7 * i)).len() <= bytes.len(),
        bytes.subrange(p, p + varint_bytes(v >> (7 * i)).len()) == varint_bytes(v >> (7 * i)),
    ensures
        spec_varint_from(bytes, p, i as nat, v & (((1u64 << (7 * i)) - 1) as u32))
            == Some((v, (p + varint_bytes(v >> (7 * i)).len()) as int)),
    decreases 4 - i,
{
    let w = v >> (7 * i);
    let acc = v & (((1u64 << (7 * i)) - 1) as u32);
    let enc = varint_bytes(w);
    assert(bytes[p] == enc[0]);
    if w < 128 {
        assert(enc == seq![w as u8]);
        let b = bytes[p] as u32;
        assert(b == w);
        assert(b & 0x80u32 == 0) by (bit_vector)
            requires
                b == w,
                w < 128u32,
        ;
        assert((acc | ((b & 127u32) << ((7 * i) as u32))) == v) by (bit_vector)
            requires
                b == w,
                w < 128u32,
                w == v >> (7 * i),
                acc == v & (((1u64 << (7 * i)) - 1) as u32),
                i <= 4u32,
        ;
    } else {
        assert(i < 4) by (bit_vector)
            requires
                w == v >> (7 * i),
                w >= 128u32,
                i <= 4u32,
        ;
        let b = bytes[p] as u32;
        let rest = varint_bytes(w >> 7u32);
        assert(enc == seq![((w & 127u32) | 128u32) as u8] + rest);
        assert(b == (w & 127u32) | 128u32) by (bit_vector)
            requires
                b == (((w & 127u32) | 128u32) as u8) as u32,
        ;
        assert(b & 0x80u32 != 0) by (bit_vector)
            requires
                b == (w & 127u32) | 128u32,
        ;
        assert(w >> 7u32 == v >> (7 * (i + 1))) by (bit_vector)
            requires
                w == v >> (7 * i),
                i < 4u32,
        ;
        assert((acc | ((b & 127u32) << ((7 * i) as u32))) == v & (((1u64 << (7 * (i + 1))) - 1) as u32)) by (bit_vector)
            requires
                b == (w & 127u32) | 128u32,
                w == v >> (7 * i),
                acc == v & (((1u64 << (7 * i)) - 1) as u32),
                i < 4u32,
        ;
        assert(bytes.subrange(p + 1, p + 1 + rest.len()) =~= rest) by {
            assert forall|t: int| 0 <= t < rest.len() implies bytes[p + 1 + t] == rest[t] by {
                assert(bytes.subrange(p, p + enc.len())[1 + t] == enc[1 + t]);
            }
        }
        lemma_varint_rest(bytes, p + 1, (i + 1) as u32, v);
    }
}

/// A `u32` written as a varint reads back as itself, and reading ends just
/// after the encoding, whatever comes before or after it.
pub proof fn law_varint_reads_back(pre: Seq<u8>, v: u32, rest: Seq<u8>)
    ensures
        spec_varint(pre + varint_bytes(v) + rest, pre.len() as int) == Some((v, (pre.len() + varint_bytes(v).len()) as int)),
{
    let bytes = pre + varint_bytes(v) + rest;
    let enc = varint_bytes(v);
    assert(v >> 0u32 == v) by (bit_vector);
    assert(v & (((1u64 << 0u32) - 1) as u32) == 0u32) by (bit_vector);
    assert(bytes.subrange(pre.len() as int, (pre.len() + enc.len()) as int) =~= enc);
    lemma_varint_rest(bytes, pre.len() as int, 0, v);
}


/// A path state whose last index lies within the seven entries, with every
/// entry after it zero.
pub open spec fn trailing_zero(s: FpState) -> bool {
    &&& s.0.len() == 7
    &&& 0 <= s.1 <= 6
    &&& forall|j: int| s.1 < j < 7 ==> #[trigger] s.0[j] == 0
}

/// Adding to or setting an entry up to the last keeps the entries after it zero.
proof fn lemma_tz_write(s: FpState, i: int, x: i32)
    requires
        trailing_zero(s),
        0 <= i <= s.1,
    ensures
        st_add(s, i, x) matches Ok(t) ==> trailing_zero(t),
        st_set(s, i, x) matches Ok(t) ==> trailing_zero(t),
{
}

/// Reading a number only moves the position.
proof fn lemma_tz_read(d: Seq<u8>, s: FpState, k: Reading)
    ensures
        st_read_kind(d, s, k) matches Ok((v, t)) ==> t.0 == s.0 && t.1 == s.1,
{
}

/// Pushing an entry and writing it keeps the entries after the new last one zero.
proof fn lemma_tz_push_write(d: Seq<u8>, s: FpState, k: Reading, off: i32, x: i32)
    requires
        trailing_zero(s),
    ensures
        add_read(d, st_push(s), k, off) matches Ok(t) ==> trailing_zero(t),
        set_read(d, st_push(s), k, off) matches Ok(t) ==> trailing_zero(t),
        st_set(st_push(s), s.1 + 1, x) matches Ok(t) ==> trailing_zero(t),
{
    lemma_tz_read(d, st_push(s), k);
}

/// Writing a read number to the last entry keeps the entries after it zero.
proof fn lemma_tz_add_read(d: Seq<u8>, s: FpState, k: Reading, off: i32)
    requires
        trailing_zero(s),
    ensures
        add_read(d, s, k, off) matches Ok(t) ==> trailing_zero(t),
{
    lemma_tz_read(d, s, k);
    if let Ok((v, s1)) = st_read_kind(d, s, k) {
        lemma_tz_write(s1, s1.1, crate::field_path::wadd(v as i32, off));
    }
}

/// Pushing entries one by one keeps the entries after the last one zero.
proof fn lemma_tz_push_n(d: Seq<u8>, s: FpState, k: Reading, n: nat)
    requires
        trailing_zero(s),
    ensures
        push_add_n(d, s, k, n) matches Ok(t) ==> trailing_zero(t),
        push_set_n(d, s, k, n) matches Ok(t) ==> trailing_zero(t),
    decreases n,
{
    if n > 0 {
        lemma_tz_push_write(d, s, k, 0, 0);
        if let Ok(s1) = add_read(d, st_push(s), k, 0) {
            lemma_tz_push_n(d, s1, k, (n - 1) as nat);
        }
        if let Ok(s1) = set_read(d, st_push(s), k, 0) {
            lemma_tz_push_n(d, s1, k, (n - 1) as nat);
        }
    }
}

/// Adding to flagged entries up to the last keeps the entries after it zero.
proof fn lemma_tz_non_topo(d: Seq<u8>, s: FpState, i: int, k: Delta)
    requires
        trailing_zero(s),
        0 <= i,
    ensures
        non_topo(d, s, i, s.1, k) matches Ok(t) ==> trailing_zero(t),
    decreases s.1 + 1 - i,
{
    if i <= s.1 {
        if let Ok((flag, p1)) = crate::bitreader::spec_flag(d, s.2) {
            let s1 = (s.0, s.1, p1);
            if flag {
                if let Ok((x, s2)) = read_delta(d, s1, k) {
                    lemma_tz_write(s2, i, x);
                    if let Ok(s3) = st_add(s2, i, x) {
                        lemma_tz_non_topo(d, s3, i + 1, k);
                    }
                }
            } else {
                lemma_tz_non_topo(d, s1, i + 1, k);
            }
        }
    }
}

/// Dropping entries zeroes them and keeps the rest zero after the new last one.
proof fn lemma_tz_pop(d: Seq<u8>, s: FpState, n: int)
    requires
        trailing_zero(s),
    ensures
        st_pop(s, n) matches Ok(t) ==> trailing_zero(t),
        pop_read(d, s) matches Ok(t) ==> trailing_zero(t),
{
    lemma_tz_read(d, s, Reading::Fp);
}

/// Field-path ops 0 to 12 keep the entries after the last one zero.
proof fn lemma_tz_ops_low(opcode: u8, d: Seq<u8>, s: FpState)
    requires
        trailing_zero(s),
        opcode <= 12,
    ensures
        spec_do_op(opcode, d, s) matches Ok(t) ==> trailing_zero(t),
{
    let fp = Reading::Fp;
    if opcode <= 3 {
        lemma_tz_write(s, s.1, 1);
        lemma_tz_write(s, s.1, 2);
        lemma_tz_write(s, s.1, 3);
        lemma_tz_write(s, s.1, 4);
    } else if opcode == 4 {
        lemma_tz_add_read(d, s, fp, 5);
    } else if opcode == 5 || opcode == 6 {
        lemma_tz_push_write(d, s, fp, 0, 0);
    } else if opcode == 7 || opcode == 8 {
        lemma_tz_write(s, s.1, 1);
        if let Ok(s1) = st_add(s, s.1, 1) {
            lemma_tz_push_write(d, s1, fp, 0, 0);
        }
    } else if opcode == 9 {
        lemma_tz_add_read(d, s, fp, 0);
        if let Ok(s1) = add_read(d, s, fp, 0) {
            lemma_tz_push_write(d, s1, fp, 0, 0);
        }
    } else {
        let k = if opcode == 10 { fp } else if opcode == 11 { Reading::Bits(3) } else { Reading::Bits(4) };
        lemma_tz_add_read(d, s, k, 2);
        if let Ok(s1) = add_read(d, s, k, 2) {
            lemma_tz_push_write(d, s1, k, 1, 0);
        }
    }
}

/// Field-path ops 13 to 26 keep the entries after the last one zero.
proof fn lemma_tz_ops_push(opcode: u8, d: Seq<u8>, s: FpState)
    requires
        trailing_zero(s),
        13 <= opcode <= 26,
    ensures
        spec_do_op(opcode, d, s) matches Ok(t) ==> trailing_zero(t),
{
    let fp = Reading::Fp;
    let ubv = Reading::UBitVar;
    let b5 = Reading::Bits(5);
    if opcode <= 16 {
        lemma_tz_push_n(d, s, fp, 2);
        lemma_tz_push_n(d, s, b5, 2);
        lemma_tz_push_n(d, s, fp, 3);
        lemma_tz_push_n(d, s, b5, 3);
    } else if opcode <= 20 {
        lemma_tz_write(s, s.1, 1);
        if let Ok(s1) = st_add(s, s.1, 1) {
            lemma_tz_push_n(d, s1, fp, 2);
            lemma_tz_push_n(d, s1, b5, 2);
            lemma_tz_push_n(d, s1, fp, 3);
            lemma_tz_push_n(d, s1, b5, 3);
        }
    } else if opcode <= 24 {
        lemma_tz_add_read(d, s, ubv, 2);
        if let Ok(s1) = add_read(d, s, ubv, 2) {
            lemma_tz_push_n(d, s1, fp, 2);
            lemma_tz_push_n(d, s1, b5, 2);
            lemma_tz_push_n(d, s1, fp, 3);
            lemma_tz_push_n(d, s1, b5, 3);
        }
    } else if opcode == 25 {
        lemma_tz_read(d, s, ubv);
        if let Ok((n, s1)) = st_read_kind(d, s, ubv) {
            lemma_tz_add_read(d, s1, ubv, 0);
            if let Ok(s2) = add_read(d, s1, ubv, 0) {
                lemma_tz_push_n(d, s2, fp, if (n as i32) < 0 { 0 } else { (n as i32) as nat });
            }
        }
    } else {
        lemma_tz_non_topo(d, s, 0, Delta::ZigPlusOne);
        if let Ok(s1) = non_topo(d, s, 0, s.1, Delta::ZigPlusOne) {
            lemma_tz_read(d, s1, ubv);
            if let Ok((count, s2)) = st_read_kind(d, s1, ubv) {
                lemma_tz_push_n(d, s2, fp, count as nat);
            }
        }
    }
}

/// Field-path ops 27 to 38 keep the entries after the last one zero.
proof fn lemma_tz_ops_pop(opcode: u8, d: Seq<u8>, s: FpState)
    requires
        trailing_zero(s),
        27 <= opcode <= 38,
    ensures
        spec_do_op(opcode, d, s) matches Ok(t) ==> trailing_zero(t),
{
    let fp = Reading::Fp;
    if opcode <= 28 {
        lemma_tz_pop(d, s, 1);
        if let Ok(s1) = st_pop(s, 1) {
            lemma_tz_write(s1, s1.1, 1);
            lemma_tz_add_read(d, s1, fp, 1);
        }
    } else if opcode <= 32 {
        lemma_tz_pop(d, s, s.1);
        if let Ok(s1) = st_pop(s, s.1) {
            lemma_tz_write(s1, 0, 1);
            let k = if opcode == 30 { fp } else if opcode == 31 { Reading::Bits(3) } else { Reading::Bits(6) };
            lemma_tz_read(d, s1, k);
            if let Ok((v, s2)) = st_read_kind(d, s1, k) {
                lemma_tz_write(s2, 0, crate::field_path::wadd(v as i32, 1));
            }
        }
    } else if opcode <= 35 {
        lemma_tz_pop(d, s, 0);
        if let Ok(s1) = pop_read(d, s) {
            lemma_tz_write(s1, s1.1, 1);
            if let Ok((x, s2)) = read_delta(d, s1, Delta::Zig) {
                lemma_tz_write(s2, s2.1, x);
            }
            lemma_tz_non_topo(d, s1, 0, Delta::Zig);
        }
    } else if opcode == 36 {
        lemma_tz_non_topo(d, s, 0, Delta::Zig);
    } else if opcode == 37 {
        if s.1 > 0 {
            lemma_tz_write(s, s.1 - 1, 1);
        }
    } else {
        lemma_tz_non_topo(d, s, 0, Delta::Bits4MinusSeven);
    }
}

/// Every field-path op that succeeds keeps the last index within the
/// path and the entries after it zero.
pub proof fn law_do_op_keeps_trailing_zero(opcode: u8, d: Seq<u8>, s: FpState)
    requires
        trailing_zero(s),
    ensures
        spec_do_op(opcode, d, s) matches Ok(t) ==> trailing_zero(t),
{
    if opcode <= 12 {
        lemma_tz_ops_low(opcode, d, s);
    } else if opcode <= 26 {
        lemma_tz_ops_push(opcode, d, s);
    } else if opcode <= 38 {
        lemma_tz_ops_pop(opcode, d, s);
    }
}

} // verus!
