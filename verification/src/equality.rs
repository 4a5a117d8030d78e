use vstd::prelude::*;
use crate::variants::{Variant, Sticker, InputHistory, Cell, variant_view, sticker_view};

verus! {

/// `f32` bits that are not a number: all exponent bits set, a mantissa bit set.
pub open spec fn is_nan_bits(a: u32) -> bool {
    (a & 0x7f80_0000u32) == 0x7f80_0000u32 && (a & 0x007f_ffffu32) != 0
}

/// Two `f32` values, given by their bits, compare equal: neither is a
/// NaN, and they have the same bits or are both zero (of either sign).
pub open spec fn f32_eq(a: u32, b: u32) -> bool {
    !is_nan_bits(a) && !is_nan_bits(b) && (a == b || ((a & 0x7fff_ffffu32) == 0 && (b & 0x7fff_ffffu32) == 0))
}

/// Two optional `f32` values compare equal.
pub open spec fn opt_f32_eq(a: Option<u32>, b: Option<u32>) -> bool {
    match (a, b) {
        (Some(x), Some(y)) => f32_eq(x, y),
        (None, None) => true,
        _ => false,
    }
}

/// Two stickers compare equal, field by field.
pub open spec fn sticker_eq(s: (Seq<char>, u32, u32, u32, u32), t: (Seq<char>, u32, u32, u32, u32)) -> bool {
    s.0 == t.0 && f32_eq(s.1, t.1) && s.2 == t.2 && f32_eq(s.3, t.3) && f32_eq(s.4, t.4)
}

/// Two input-history entries compare equal, field by field.
pub open spec fn input_eq(a: InputHistory, b: InputHistory) -> bool {
    opt_f32_eq(a.x, b.x) && opt_f32_eq(a.y, b.y) && opt_f32_eq(a.z, b.z)
        && a.render_tick_count == b.render_tick_count && f32_eq(a.render_tick_fraction, b.render_tick_fraction)
        && a.player_tick_count == b.player_tick_count && f32_eq(a.player_tick_fraction, b.player_tick_fraction)
}

/// Two rows compare equal: floating-point parts as floats, the rest exactly.
pub open spec fn cells_equal(a: Cell, b: Cell) -> bool {
    match (a, b) {
        (Cell::F32(x), Cell::F32(y)) => f32_eq(x, y),
        (Cell::XY(x), Cell::XY(y)) => f32_eq(x[0], y[0]) && f32_eq(x[1], y[1]),
        (Cell::XYZ(x), Cell::XYZ(y)) => f32_eq(x[0], y[0]) && f32_eq(x[1], y[1]) && f32_eq(x[2], y[2]),
        (Cell::Stickers(s), Cell::Stickers(t)) => s.len() == t.len()
            && forall|i: int| 0 <= i < s.len() ==> sticker_eq(#[trigger] s[i], t[i]),
        (Cell::Inputs(s), Cell::Inputs(t)) => s.len() == t.len()
            && forall|i: int| 0 <= i < s.len() ==> input_eq(#[trigger] s[i], t[i]),
        _ => a == b,
    }
}

/// Two values compare equal: the same kind of value, holding equal contents.
pub open spec fn views_equal(a: (crate::variants::VarKind, Cell, bool, bool), b: (crate::variants::VarKind, Cell, bool, bool)) -> bool {
    a.0 == b.0 && a.2 == b.2 && a.3 == b.3 && cells_equal(a.1, b.1)
}

/// Whether two `f32` values, given by their bits, compare equal.
pub fn f32_bits_eq(a: u32, b: u32) -> (r: bool)
    ensures
        r == f32_eq(a, b),
{
    let a_nan = (a & 0x7f80_0000u32) == 0x7f80_0000u32 && (a & 0x007f_ffffu32) != 0;
    let b_nan = (b & 0x7f80_0000u32) == 0x7f80_0000u32 && (b & 0x007f_ffffu32) != 0;
    !a_nan && !b_nan && (a == b || ((a & 0x7fff_ffffu32) == 0 && (b & 0x7fff_ffffu32) == 0))
}

/// Whether two optional `f32` values compare equal.
fn opt_f32_bits_eq(a: Option<u32>, b: Option<u32>) -> (r: bool)
    ensures
        r == opt_f32_eq(a, b),
{
    match (a, b) {
        (Some(x), Some(y)) => f32_bits_eq(x, y),
        (None, None) => true,
        _ => false,
    }
}

/// Whether two texts are equal.
fn strings_same(a: &String, b: &String) -> (r: bool)
    ensures
        r == (a@ == b@),
{
    crate::strings::str_eq(a.as_str(), b.as_str())
}

/// Whether two lists of stickers compare equal.
fn stickers_eq(s: &Vec<Sticker>, t: &Vec<Sticker>) -> (r: bool)
    ensures
        r == cells_equal(Cell::Stickers(crate::variants::stickers_view(s@)), Cell::Stickers(crate::variants::stickers_view(t@))),
{
    let ghost sv = crate::variants::stickers_view(s@);
    let ghost tv = crate::variants::stickers_view(t@);
    if s.len() != t.len() {
        return false;
    }
    let mut i: usize = 0;
    while i < s.len()
        invariant
            i <= s@.len(),
            s@.len() == t@.len(),
            sv == crate::variants::stickers_view(s@),
            tv == crate::variants::stickers_view(t@),
            forall|j: int| 0 <= j < i ==> sticker_eq(#[trigger] sv[j], tv[j]),
        decreases s@.len() - i,
    {
        let a = &s[i];
        let b = &t[i];
        assert(sv[i as int] == sticker_view(*a));
        assert(tv[i as int] == sticker_view(*b));
        if !(strings_same(&a.name, &b.name) && f32_bits_eq(a.wear, b.wear) && a.id == b.id && f32_bits_eq(a.x, b.x)
            && f32_bits_eq(a.y, b.y)) {
            assert(!sticker_eq(sv[i as int], tv[i as int]));
            return false;
        }
        i += 1;
    }
    true
}

/// Whether two input histories compare equal.
fn inputs_eq(s: &Vec<InputHistory>, t: &Vec<InputHistory>) -> (r: bool)
    ensures
        r == cells_equal(Cell::Inputs(s@), Cell::Inputs(t@)),
{
    if s.len() != t.len() {
        return false;
    }
    let mut i: usize = 0;
    while i < s.len()
        invariant
            i <= s@.len(),
            s@.len() == t@.len(),
            forall|j: int| 0 <= j < i ==> input_eq(#[trigger] s@[j], t@[j]),
        decreases s@.len() - i,
    {
        let a = s[i];
        let b = t[i];
        if !(opt_f32_bits_eq(a.x, b.x) && opt_f32_bits_eq(a.y, b.y) && opt_f32_bits_eq(a.z, b.z)
            && a.render_tick_count == b.render_tick_count && f32_bits_eq(a.render_tick_fraction, b.render_tick_fraction)
            && a.player_tick_count == b.player_tick_count && f32_bits_eq(a.player_tick_fraction, b.player_tick_fraction)) {
            assert(!input_eq(s@[i as int], t@[i as int]));
            return false;
        }
        i += 1;
    }
    true
}

/// Whether two lists of texts are equal.
fn string_lists_eq(s: &Vec<String>, t: &Vec<String>) -> (r: bool)
    ensures
        r == (crate::variants::strings_view(s@) == crate::variants::strings_view(t@)),
{
    let ghost sv = crate::variants::strings_view(s@);
    let ghost tv = crate::variants::strings_view(t@);
    if s.len() != t.len() {
        assert(sv.len() != tv.len());
        return false;
    }
    let mut i: usize = 0;
    while i < s.len()
        invariant
            i <= s@.len(),
            s@.len() == t@.len(),
            sv == crate::variants::strings_view(s@),
            tv == crate::variants::strings_view(t@),
            forall|j: int| 0 <= j < i ==> #[trigger] sv[j] == tv[j],
        decreases s@.len() - i,
    {
        if !strings_same(&s[i], &t[i]) {
            assert(sv[i as int] != tv[i as int]);
            return false;
        }
        i += 1;
    }
    assert(sv =~= tv);
    true
}

/// Whether two lists of numbers are equal.
fn u32_lists_eq(s: &Vec<u32>, t: &Vec<u32>) -> (r: bool)
    ensures
        r == (s@ == t@),
{
    if s.len() != t.len() {
        return false;
    }
    let mut i: usize = 0;
    while i < s.len()
        invariant
            i <= s@.len(),
            s@.len() == t@.len(),
            forall|j: int| 0 <= j < i ==> #[trigger] s@[j] == t@[j],
        decreases s@.len() - i,
    {
        if s[i] != t[i] {
            return false;
        }
        i += 1;
    }
    assert(s@ =~= t@);
    true
}

/// Whether two lists of numbers are equal.
fn u64_lists_eq(s: &Vec<u64>, t: &Vec<u64>) -> (r: bool)
    ensures
        r == (s@ == t@),
{
    if s.len() != t.len() {
        return false;
    }
    let mut i: usize = 0;
    while i < s.len()
        invariant
            i <= s@.len(),
            s@.len() == t@.len(),
            forall|j: int| 0 <= j < i ==> #[trigger] s@[j] == t@[j],
        decreases s@.len() - i,
    {
        if s[i] != t[i] {
            return false;
        }
        i += 1;
    }
    assert(s@ =~= t@);
    true
}

/// Whether two values compare equal: values of different kinds never do,
/// floating-point parts compare as floats (a NaN equals nothing, the two
/// zeros are equal), and everything else compares exactly.
pub fn variant_eq(a: &Variant, b: &Variant) -> (r: bool)
    ensures
        r == views_equal(variant_view(*a), variant_view(*b)),
{
    match (a, b) {
        (Variant::Bool(x), Variant::Bool(y)) => *x == *y,
        (Variant::U32(x), Variant::U32(y)) => *x == *y,
        (Variant::I32(x), Variant::I32(y)) => *x == *y,
        (Variant::I16(x), Variant::I16(y)) => *x == *y,
        (Variant::F32(x), Variant::F32(y)) => f32_bits_eq(*x, *y),
        (Variant::U64(x), Variant::U64(y)) => *x == *y,
        (Variant::U8(x), Variant::U8(y)) => *x == *y,
        (Variant::String(x), Variant::String(y)) => strings_same(x, y),
        (Variant::XYVec(x), Variant::XYVec(y)) => f32_bits_eq(x[0], y[0]) && f32_bits_eq(x[1], y[1]),
        (Variant::XYZVec(x), Variant::XYZVec(y)) => f32_bits_eq(x[0], y[0]) && f32_bits_eq(x[1], y[1])
            && f32_bits_eq(x[2], y[2]),
        (Variant::StringVec(x), Variant::StringVec(y)) => string_lists_eq(x, y),
        (Variant::U32Vec(x), Variant::U32Vec(y)) => u32_lists_eq(x, y),
        (Variant::U64Vec(x), Variant::U64Vec(y)) => u64_lists_eq(x, y),
        (Variant::Stickers(x), Variant::Stickers(y)) => stickers_eq(x, y),
        (Variant::InputHistory(x), Variant::InputHistory(y)) => inputs_eq(x, y),
        _ => false,
    }
}

} // verus!
